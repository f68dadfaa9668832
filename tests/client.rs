use espipe::{Auth, AuthError, ClientError, ElasticsearchBuilder, HeaderKind, KnownHost};
use url::Url;

fn url() -> Url {
    Url::parse("http://localhost:9200").unwrap()
}

fn header_values(b: &ElasticsearchBuilder) -> Vec<(HeaderKind, String)> {
    b.headers().iter().map(|h| (h.kind, h.value.clone())).collect()
}

#[test]
fn auth_options_combine_only_in_three_ways() {
    let s = |v: &str| Some(v.to_string());
    assert_eq!(Auth::try_new(s("k"), None, None), Ok(Auth::Apikey("k".to_string())));
    assert_eq!(
        Auth::try_new(None, s("u"), s("p")),
        Ok(Auth::Basic("u".to_string(), "p".to_string()))
    );
    assert_eq!(Auth::try_new(None, None, None), Ok(Auth::NoAuth));
    assert_eq!(Auth::try_new(s("k"), s("u"), None), Err(AuthError::InvalidConfiguration));
    assert_eq!(Auth::try_new(None, s("u"), None), Err(AuthError::InvalidConfiguration));
    assert_eq!(Auth::try_new(None, None, s("p")), Err(AuthError::InvalidConfiguration));
    assert_eq!(AuthError::InvalidConfiguration.message(), "Invalid auth configuration");
}

#[test]
fn auth_kind_names() {
    assert_eq!(Auth::Apikey("k".to_string()).kind(), "Apikey");
    assert_eq!(Auth::Basic("u".to_string(), "p".to_string()).kind(), "Basic");
    assert_eq!(Auth::NoAuth.kind(), "None");
}

#[test]
fn new_builder_asks_for_gzip_and_checks_certificates() {
    let b = ElasticsearchBuilder::new(url());
    assert!(b.checks_certs());
    assert_eq!(header_values(&b), vec![(HeaderKind::AcceptEncoding, "gzip".to_string())]);
    let b = b.insecure(true);
    assert!(!b.checks_certs());
    assert_eq!(b.url().as_str(), "http://localhost:9200/");
}

#[test]
fn basic_auth_header_is_base64_of_user_and_password() {
    let b = ElasticsearchBuilder::new(url()).auth(Auth::Basic("user".to_string(), "pass".to_string()));
    assert_eq!(header_values(&b)[1], (HeaderKind::Authorization, "Basic dXNlcjpwYXNz".to_string()));
}

#[test]
fn apikey_header() {
    let b = ElasticsearchBuilder::new(url()).auth(Auth::Apikey("abc".to_string()));
    assert_eq!(header_values(&b)[1], (HeaderKind::Authorization, "ApiKey abc".to_string()));
    let b = ElasticsearchBuilder::new(url()).auth(Auth::NoAuth);
    assert_eq!(header_values(&b).len(), 1);
}

#[test]
fn header_with_control_character_is_refused_at_build() {
    let b = ElasticsearchBuilder::new(url()).apikey("bad\nkey".to_string());
    assert!(matches!(b.build(), Err(ClientError::InvalidHeader)));
}

#[test]
fn valid_settings_build_a_client() {
    let b = ElasticsearchBuilder::new(url()).apikey("key".to_string()).insecure(true);
    assert!(b.build().is_ok());
}

#[test]
fn known_host_builder_uses_its_credentials() {
    let host = KnownHost::Basic {
        insecure: Some(true),
        password: "pass".to_string(),
        url: url(),
        username: "user".to_string(),
    };
    let b = host.builder();
    assert!(!b.checks_certs());
    assert_eq!(header_values(&b)[1].1, "Basic dXNlcjpwYXNz");
    let host = KnownHost::NoAuth { insecure: None, url: url() };
    let b = host.builder();
    assert!(b.checks_certs());
    assert_eq!(header_values(&b).len(), 1);
}

#[test]
fn many_authorization_headers_still_build() {
    let mut b = ElasticsearchBuilder::new(url());
    for i in 0..1100 {
        b = b.apikey(format!("key{i}"));
    }
    assert_eq!(b.headers().len(), 1101);
    assert!(b.build().is_ok());
}

#[test]
fn builder_keeps_the_address_through_credentials() {
    let b = ElasticsearchBuilder::new(url())
        .auth(Auth::Basic("u".to_string(), "p".to_string()))
        .apikey("k".to_string());
    assert_eq!(b.url().as_str(), "http://localhost:9200/");
}
