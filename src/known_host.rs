//! A named store node from the hosts file, with the credentials to reach it.
use vstd::prelude::*;

use elasticsearch::Elasticsearch;
use url::Url;

use crate::client::{
    all_headers_ok, base64_of, ClientError, ElasticsearchBuilder, HeaderKind,
};

verus! {

/// A store node known by name: its address, its credentials, and whether to skip the
/// certificate check.
pub enum KnownHost {
    ApiKey { insecure: Option<bool>, apikey: String, url: Url },
    Basic { insecure: Option<bool>, password: String, url: Url, username: String },
    NoAuth { insecure: Option<bool>, url: Url },
}

/// Whether the certificate check is skipped: only when the entry says so.
pub open spec fn skips_check(insecure: Option<bool>) -> bool {
    insecure == Some(true)
}

/// The headers a client for `h` sends: gzip responses, then the entry's credentials.
pub open spec fn host_headers(h: KnownHost) -> Seq<(HeaderKind, Seq<char>)> {
    match h {
        KnownHost::ApiKey { apikey, .. } => seq![
            (HeaderKind::AcceptEncoding, "gzip"@),
            (HeaderKind::Authorization, "ApiKey "@ + apikey@),
        ],
        KnownHost::Basic { password, username, .. } => seq![
            (HeaderKind::AcceptEncoding, "gzip"@),
            (HeaderKind::Authorization, "Basic "@ + base64_of(username@ + ":"@ + password@)),
        ],
        KnownHost::NoAuth { .. } => seq![(HeaderKind::AcceptEncoding, "gzip"@)],
    }
}

/// The address of the node that `h` names.
pub open spec fn host_url(h: KnownHost) -> Url {
    match h {
        KnownHost::ApiKey { url, .. } => url,
        KnownHost::Basic { url, .. } => url,
        KnownHost::NoAuth { url, .. } => url,
    }
}

/// Whether a client for `h` checks the node's certificate.
pub open spec fn host_checks_certs(h: KnownHost) -> bool {
    match h {
        KnownHost::ApiKey { insecure, .. } => !skips_check(insecure),
        KnownHost::Basic { insecure, .. } => !skips_check(insecure),
        KnownHost::NoAuth { insecure, .. } => !skips_check(insecure),
    }
}

impl KnownHost {
    /// A builder for this node with its credentials; the certificate check is kept unless
    /// the entry turns it off.
    pub fn builder(self) -> (r: ElasticsearchBuilder)
        ensures
            r@.url == host_url(self),
            r@.check_certs == host_checks_certs(self),
            r@.headers == host_headers(self),
    {
        let ghost h = self;
        match self {
            KnownHost::ApiKey { insecure, apikey, url } => {
                let r = ElasticsearchBuilder::new(url).apikey(apikey).insecure(
                    unwrap_flag(insecure),
                );
                assert(r@.headers =~= host_headers(h));
                r
            },
            KnownHost::Basic { insecure, password, url, username } => {
                let r = ElasticsearchBuilder::new(url).basic_auth(username, password).insecure(
                    unwrap_flag(insecure),
                );
                assert(r@.headers =~= host_headers(h));
                r
            },
            KnownHost::NoAuth { insecure, url } => {
                ElasticsearchBuilder::new(url).insecure(unwrap_flag(insecure))
            },
        }
    }

    /// A client for this node. It is refused when a credential holds a character that
    /// headers cannot carry; otherwise the transport decides.
    pub fn connect(self) -> (r: Result<Elasticsearch, ClientError>)
        ensures
            !all_headers_ok(host_headers(self)) ==> r matches Err(ClientError::InvalidHeader),
            all_headers_ok(host_headers(self)) ==> (r is Ok || r matches Err(
                ClientError::Transport(_),
            )),
    {
        self.builder().build()
    }
}

fn unwrap_flag(flag: Option<bool>) -> (r: bool)
    ensures
        r == skips_check(flag),
{
    match flag {
        Some(b) => b,
        None => false,
    }
}

} // verus!
