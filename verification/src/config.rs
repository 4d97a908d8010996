//! Node configuration and the panel endpoint URLs.

use vstd::prelude::*;
use vstd::string::{StrSliceExecFns, StringExecFns};

verus! {

/// Which ingress protocol a listener speaks.
#[derive(Clone, Copy, PartialEq, Eq, Structural, Debug)]
pub enum SupportedProtocols {
    TROJAN,
}

/// Process-wide configuration, read once at startup.
#[derive(Clone, Debug)]
pub struct Config {
    pub node_id: u8,
    pub webapi_url: String,
    pub webapi_key: String,
    pub check_interval: u64,
    pub submit_interval: u64,
    pub tls: Option<InboundTlsConfig>,
}

/// What the listener needs: protocol, bind address and port, TLS materials.
#[derive(Clone, Debug)]
pub struct InboundConfig {
    pub protocol: SupportedProtocols,
    pub address: String,
    pub port: u16,
    pub tls: Option<InboundTlsConfig>,
}

/// Where the TLS certificate and key are found.
#[derive(Clone, Debug)]
pub struct InboundTlsConfig {
    pub cert_path: String,
    pub key_path: String,
}

/// `s` without its trailing `/` characters.
pub open spec fn strip_trailing_slashes(s: Seq<char>) -> Seq<char>
    decreases s.len(),
{
    if s.len() > 0 && s[s.len() - 1] == '/' {
        strip_trailing_slashes(s.drop_last())
    } else {
        s
    }
}

/// The base URL without its trailing slashes, ready for path joining.
fn trimmed_base(url: &str) -> (r: &str)
    ensures
        r@ == strip_trailing_slashes(url@),
{
    let n = url.unicode_len();
    let mut end: usize = n;
    proof {
        assert(url@.subrange(0, n as int) =~= url@);
    }
    while end > 0 && url.get_char(end - 1) == '/'
        invariant
            end <= n,
            n == url@.len(),
            strip_trailing_slashes(url@) == strip_trailing_slashes(
                url@.subrange(0, end as int),
            ),
        decreases end,
    {
        proof {
            assert(url@.subrange(0, end as int).drop_last() =~= url@.subrange(0, end - 1));
        }
        end = end - 1;
    }
    url.substring_char(0, end)
}

impl Config {
    /// The panel endpoint that lists the current users.
    pub fn get_users_url(self) -> (r: String)
        ensures
            r@ == strip_trailing_slashes(self.webapi_url@) + "/api/v1/server/trojan/users"@,
    {
        let base = trimmed_base(self.webapi_url.as_str());
        String::from_str(base).concat("/api/v1/server/trojan/users")
    }

    /// The panel endpoint that takes traffic reports.
    pub fn get_submit_url(self) -> (r: String)
        ensures
            r@ == strip_trailing_slashes(self.webapi_url@) + "/api/v1/server/trojan/submit"@,
    {
        let base = trimmed_base(self.webapi_url.as_str());
        String::from_str(base).concat("/api/v1/server/trojan/submit")
    }

    /// The panel endpoint that hands this node its listener settings.
    pub fn get_config_url(self) -> (r: String)
        ensures
            r@ == strip_trailing_slashes(self.webapi_url@) + "/api/v1/server/trojan/config"@,
    {
        let base = trimmed_base(self.webapi_url.as_str());
        String::from_str(base).concat("/api/v1/server/trojan/config")
    }
}

} // verus!
