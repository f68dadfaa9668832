//! The settings of a client for one store node: where it connects, which headers it
//! sends, and whether it checks the node's certificate.
use vstd::prelude::*;

use base64::engine::general_purpose::STANDARD;
use base64::Engine;
use elasticsearch::cert::CertificateValidation;
use elasticsearch::http::headers::{HeaderMap, HeaderValue, ACCEPT_ENCODING, AUTHORIZATION};
use elasticsearch::http::transport::{BuildError, SingleNodeConnectionPool, TransportBuilder};
use elasticsearch::Elasticsearch;
use url::Url;

use crate::auth::Auth;
use crate::text::push_str;

verus! {

#[verifier::external_type_specification]
#[verifier::external_body]
pub struct ExUrl(Url);

#[verifier::external_type_specification]
#[verifier::external_body]
pub struct ExElasticsearch(Elasticsearch);

#[verifier::external_type_specification]
#[verifier::external_body]
pub struct ExBuildError(BuildError);

#[verifier::external_type_specification]
#[verifier::external_body]
pub struct ExHeaderValue(HeaderValue);

#[verifier::external_type_specification]
#[verifier::external_body]
#[verifier::reject_recursive_types(T)]
pub struct ExHeaderMap<T>(HeaderMap<T>);

/// A header that a client sends with every request.
#[derive(Clone, Copy, Debug, PartialEq, Eq, Structural)]
pub enum HeaderKind {
    AcceptEncoding,
    Authorization,
}

/// One header: its kind and its value.
#[derive(Clone, Debug, PartialEq, Eq)]
pub struct Header {
    pub kind: HeaderKind,
    pub value: String,
}

/// The lower-case name of a header.
pub open spec fn header_name(k: HeaderKind) -> Seq<char> {
    match k {
        HeaderKind::AcceptEncoding => "accept-encoding"@,
        HeaderKind::Authorization => "authorization"@,
    }
}

/// Whether a header may carry `s`: every character is a tab or at least a space, and none
/// is the delete character.
pub open spec fn header_value_ok(s: Seq<char>) -> bool {
    forall|i: int|
        0 <= i < s.len() ==> (#[trigger] s[i] == '\t' || (s[i] as u32 >= 32 && s[i] as u32
            != 127))
}

/// The standard base64 encoding, with padding, of the UTF-8 bytes of `s`.
pub uninterp spec fn base64_of(s: Seq<char>) -> Seq<char>;

/// The distinct header names in a header map.
pub uninterp spec fn header_names(m: HeaderMap) -> Set<Seq<char>>;

/// The names of the headers that a client sends.
pub open spec fn known_names() -> Set<Seq<char>> {
    set![header_name(HeaderKind::AcceptEncoding), header_name(HeaderKind::Authorization)]
}

/// Relies on base64's `STANDARD.encode`, which depends on the bytes alone; its length
/// computation cannot overflow for a `str`, whose length is at most `isize::MAX`.
#[verifier::external_body]
fn base64_encode(s: &str) -> (r: String)
    ensures
        r@ == base64_of(s@),
{
    STANDARD.encode(s)
}

/// Relies on `HeaderMap::new`: a map with no header.
#[verifier::external_body]
fn empty_headers() -> (r: HeaderMap)
    ensures
        header_names(r) == Set::<Seq<char>>::empty(),
{
    HeaderMap::new()
}

/// Relies on `HeaderValue::from_str`, which refuses a value with a byte below 32 other
/// than a tab, or the byte 127, and on `HeaderMap::append`, which adds the value beside
/// those already there under its name. `append` panics only when the map grows past
/// 32768 slots for distinct names; a map that holds no name but the two a client sends
/// never does.
#[verifier::external_body]
fn append_header(map: &mut HeaderMap, kind: HeaderKind, value: &str) -> (ok: bool)
    requires
        header_names(*old(map)).subset_of(known_names()),
    ensures
        ok == header_value_ok(value@),
        ok ==> header_names(*final(map)) == header_names(*old(map)).insert(header_name(kind)),
        !ok ==> header_names(*final(map)) == header_names(*old(map)),
{
    let name = match kind {
        HeaderKind::AcceptEncoding => ACCEPT_ENCODING,
        HeaderKind::Authorization => AUTHORIZATION,
    };
    match HeaderValue::from_str(value) {
        Ok(v) => {
            map.append(name, v);
            true
        },
        Err(_) => false,
    }
}

/// Relies on elasticsearch's `TransportBuilder` over a `SingleNodeConnectionPool`, and on
/// `Elasticsearch::new`; whether the transport builds depends on the machine's TLS setup.
#[verifier::external_body]
fn open_transport(url: Url, headers: HeaderMap, check_certs: bool) -> (r: Result<
    Elasticsearch,
    BuildError,
>) {
    let validation = match check_certs {
        true => CertificateValidation::Default,
        false => CertificateValidation::None,
    };
    let builder = TransportBuilder::new(SingleNodeConnectionPool::new(url));
    let transport = builder.headers(headers).cert_validation(validation).build()?;
    Ok(Elasticsearch::new(transport))
}

/// Why a client cannot be built.
#[derive(Debug)]
pub enum ClientError {
    /// A header value holds a character that headers cannot carry.
    InvalidHeader,
    /// The HTTP transport could not be set up.
    Transport(BuildError),
}

/// Builds a client for one node.
pub struct ElasticsearchBuilder {
    url: Url,
    check_certs: bool,
    headers: Vec<Header>,
}

/// What a builder holds: the node's address, whether the client checks certificates,
/// and the headers it sends, in the order they were added.
pub struct BuilderView {
    pub url: Url,
    pub check_certs: bool,
    pub headers: Seq<(HeaderKind, Seq<char>)>,
}

impl View for ElasticsearchBuilder {
    type V = BuilderView;

    closed spec fn view(&self) -> BuilderView {
        BuilderView {
            url: self.url,
            check_certs: self.check_certs,
            headers: self.headers@.map_values(|h: Header| (h.kind, h.value@)),
        }
    }
}

/// Whether every header value may be sent.
pub open spec fn all_headers_ok(hs: Seq<(HeaderKind, Seq<char>)>) -> bool {
    forall|i: int| 0 <= i < hs.len() ==> header_value_ok(#[trigger] hs[i].1)
}

impl ElasticsearchBuilder {
    /// A builder for the node at `url` that checks certificates and asks for gzip
    /// responses.
    pub fn new(url: Url) -> (r: Self)
        ensures
            r@.url == url,
            r@.check_certs,
            r@.headers == seq![(HeaderKind::AcceptEncoding, "gzip"@)],
    {
        let mut headers: Vec<Header> = Vec::new();
        headers.push(Header { kind: HeaderKind::AcceptEncoding, value: String::from_str("gzip") });
        let r = ElasticsearchBuilder { url, check_certs: true, headers };
        assert(r@.headers =~= seq![(HeaderKind::AcceptEncoding, "gzip"@)]);
        r
    }

    fn with_header(self, kind: HeaderKind, value: String) -> (r: Self)
        ensures
            r@.url == self@.url,
            r@.check_certs == self@.check_certs,
            r@.headers == self@.headers.push((kind, value@)),
    {
        let mut headers = self.headers;
        headers.push(Header { kind, value });
        let r = ElasticsearchBuilder { url: self.url, check_certs: self.check_certs, headers };
        assert(r@.headers =~= self@.headers.push((kind, value@)));
        r
    }

    /// The headers the client will send, in the order they were added.
    pub fn headers(&self) -> (r: &Vec<Header>)
        ensures
            r@.map_values(|h: Header| (h.kind, h.value@)) == self@.headers,
    {
        &self.headers
    }

    /// The address of the node the client connects to.
    pub fn url(&self) -> (r: &Url)
        ensures
            *r == self@.url,
    {
        &self.url
    }

    /// Whether the client will check the node's certificate.
    pub fn checks_certs(&self) -> (r: bool)
        ensures
            r == self@.check_certs,
    {
        self.check_certs
    }

    /// Skips the certificate check when `ignore_certs` is set.
    pub fn insecure(self, ignore_certs: bool) -> (r: Self)
        ensures
            r@.url == self@.url,
            r@.check_certs == !ignore_certs,
            r@.headers == self@.headers,
    {
        ElasticsearchBuilder { url: self.url, check_certs: !ignore_certs, headers: self.headers }
    }

    /// Sends `apikey` as an `ApiKey` authorization header.
    pub fn apikey(self, apikey: String) -> (r: Self)
        ensures
            r@.url == self@.url,
            r@.check_certs == self@.check_certs,
            r@.headers == self@.headers.push(
                (HeaderKind::Authorization, "ApiKey "@ + apikey@),
            ),
    {
        let mut value = String::from_str("ApiKey ");
        push_str(&mut value, apikey.as_str());
        self.with_header(HeaderKind::Authorization, value)
    }

    /// Sends `username:password`, base64-encoded, as a `Basic` authorization header.
    pub fn basic_auth(self, username: String, password: String) -> (r: Self)
        ensures
            r@.url == self@.url,
            r@.check_certs == self@.check_certs,
            r@.headers == self@.headers.push(
                (HeaderKind::Authorization, "Basic "@ + base64_of(username@ + ":"@ + password@)),
            ),
    {
        let mut pair = username;
        push_str(&mut pair, ":");
        push_str(&mut pair, password.as_str());
        let mut value = String::from_str("Basic ");
        let encoded = base64_encode(pair.as_str());
        push_str(&mut value, encoded.as_str());
        self.with_header(HeaderKind::Authorization, value)
    }

    /// Sends the credentials `auth` names, if any.
    pub fn auth(self, auth: Auth) -> (r: Self)
        ensures
            r@.url == self@.url,
            r@.check_certs == self@.check_certs,
            auth matches Auth::Apikey(k) ==> r@.headers == self@.headers.push(
                (HeaderKind::Authorization, "ApiKey "@ + k@),
            ),
            auth matches Auth::Basic(u, p) ==> r@.headers == self@.headers.push(
                (HeaderKind::Authorization, "Basic "@ + base64_of(u@ + ":"@ + p@)),
            ),
            auth is NoAuth ==> r@.headers == self@.headers,
    {
        match auth {
            Auth::Apikey(apikey) => self.apikey(apikey),
            Auth::Basic(username, password) => self.basic_auth(username, password),
            Auth::NoAuth => self,
        }
    }

    /// The client. It is refused when a header value holds a character that headers
    /// cannot carry; otherwise the transport decides.
    pub fn build(self) -> (r: Result<Elasticsearch, ClientError>)
        ensures
            !all_headers_ok(self@.headers) ==> r matches Err(ClientError::InvalidHeader),
            all_headers_ok(self@.headers) ==> (r is Ok || r matches Err(
                ClientError::Transport(_),
            )),
    {
        let mut map = empty_headers();
        let mut i: usize = 0;
        while i < self.headers.len()
            invariant
                i <= self.headers.len(),
                header_names(map).subset_of(known_names()),
                forall|j: int| 0 <= j < i ==> header_value_ok(#[trigger] self@.headers[j].1),
            decreases self.headers.len() - i,
        {
            let h = &self.headers[i];
            assert(self@.headers[i as int] == (h.kind, h.value@));
            if !append_header(&mut map, h.kind, h.value.as_str()) {
                assert(!header_value_ok(self@.headers[i as int].1));
                return Err(ClientError::InvalidHeader);
            }
            assert(known_names().contains(header_name(h.kind)));
            i = i + 1;
        }
        match open_transport(self.url, map, self.check_certs) {
            Ok(client) => Ok(client),
            Err(e) => Err(ClientError::Transport(e)),
        }
    }
}

} // verus!
