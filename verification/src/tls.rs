//! The TLS settings of the TLS example's server and client.

use vstd::prelude::*;
use vstd::string::*;

verus! {

/// TLS settings, with file paths as text.
pub struct TlsSettings {
    pub enabled: bool,
    /// Certificate presented by this side.
    pub cert_path: Option<String>,
    /// Private key of that certificate.
    pub key_path: Option<String>,
    /// Authority used to check the peer.
    pub ca_cert_path: Option<String>,
    /// Whether the server asks clients for certificates.
    pub client_auth: bool,
    /// Name the client expects in the server's certificate.
    pub server_name: Option<String>,
}

/// The view of an optional text.
pub open spec fn opt_view(o: Option<String>) -> Option<Seq<char>> {
    match o {
        Some(s) => Some(s@),
        None => None,
    }
}

/// The server side: `server.crt` with `server.key`, clients checked against
/// `ca.crt` but not asked for certificates.
pub fn server_tls_settings() -> (t: TlsSettings)
    ensures
        t.enabled,
        opt_view(t.cert_path) == Some("server.crt"@),
        opt_view(t.key_path) == Some("server.key"@),
        opt_view(t.ca_cert_path) == Some("ca.crt"@),
        !t.client_auth,
        t.server_name is None,
{
    TlsSettings {
        enabled: true,
        cert_path: Some(String::from_str("server.crt")),
        key_path: Some(String::from_str("server.key")),
        ca_cert_path: Some(String::from_str("ca.crt")),
        client_auth: false,
        server_name: None,
    }
}

/// The client side: no certificate of its own, the server checked against
/// `ca.crt` under the name `localhost`.
pub fn client_tls_settings() -> (t: TlsSettings)
    ensures
        t.enabled,
        t.cert_path is None,
        t.key_path is None,
        opt_view(t.ca_cert_path) == Some("ca.crt"@),
        !t.client_auth,
        opt_view(t.server_name) == Some("localhost"@),
{
    TlsSettings {
        enabled: true,
        cert_path: None,
        key_path: None,
        ca_cert_path: Some(String::from_str("ca.crt")),
        client_auth: false,
        server_name: Some(String::from_str("localhost")),
    }
}

/// The file whose presence decides whether a side really starts: the
/// server's certificate, or the client's authority. When it is missing the
/// example only shows the configuration.
pub fn required_file(settings: &TlsSettings, server_side: bool) -> (r: Option<&String>)
    ensures
        server_side ==> opt_view(settings.cert_path) == match r { Some(p) => Some(p@), None => None },
        !server_side ==> opt_view(settings.ca_cert_path) == match r { Some(p) => Some(p@), None => None },
{
    if server_side {
        settings.cert_path.as_ref()
    } else {
        settings.ca_cert_path.as_ref()
    }
}

} // verus!
