//! The TLS configurations of a connector, and the names that certificates are
//! held against.
use std::sync::Arc;

use vstd::prelude::*;

use crate::error::ConnectError;

verus! {

/// The TLS library of the system, set up. It is only carried.
#[verifier::external_type_specification]
#[verifier::external_body]
pub struct ExTlsConnector(native_tls::TlsConnector);

/// How the TLS library of the system is to be set up.
#[verifier::external_type_specification]
#[verifier::external_body]
pub struct ExTlsConnectorBuilder(native_tls::TlsConnectorBuilder);

/// An error of the TLS library of the system. It is only handed on.
#[verifier::external_type_specification]
#[verifier::external_body]
pub struct ExNativeTlsError(native_tls::Error);

/// The settings of rustls. They are only carried.
#[verifier::external_type_specification]
#[verifier::external_body]
pub struct ExClientConfig(rustls::ClientConfig);

/// The error of reading a `webpki` DNS name. It says nothing.
#[verifier::external_type_specification]
#[verifier::external_body]
pub struct ExInvalidDnsNameError(tokio_rustls::webpki::InvalidDNSNameError);

/// `native_tls::TlsConnectorBuilder::build`, which sets up the TLS library of the
/// system. Whether it succeeds depends on that library and on the machine, so
/// nothing is claimed of the result.
pub assume_specification[ native_tls::TlsConnectorBuilder::build ](
    builder: &native_tls::TlsConnectorBuilder,
) -> (r: Result<native_tls::TlsConnector, native_tls::Error>)
;

/// Whether `webpki` takes a text as a DNS name.
pub uninterp spec fn is_dns_name(host: Seq<char>) -> bool;

/// A letter in lower case; any other character as it is.
pub open spec fn lower_char(c: char) -> char {
    if 'A' <= c <= 'Z' {
        ((c as u32) + 32) as char
    } else {
        c
    }
}

/// A text with its ASCII letters in lower case.
pub open spec fn lower(text: Seq<char>) -> Seq<char> {
    text.map_values(|c: char| lower_char(c))
}

/// Calls `webpki::DNSNameRef::try_from_ascii_str` and then `to_owned`. Claimed:
/// the same text is always judged alike, and the name is the text in lower case.
#[verifier::external_body]
fn read_dns_name(host: &str) -> (r: Result<String, tokio_rustls::webpki::InvalidDNSNameError>)
    ensures
        match r {
            Ok(name) => is_dns_name(host@) && name@ == lower(host@),
            Err(_) => !is_dns_name(host@),
        },
{
    let name = tokio_rustls::webpki::DNSNameRef::try_from_ascii_str(host)?.to_owned();
    Ok(AsRef::<str>::as_ref(&name).to_owned())
}

/// One of the TLS configurations of a connector.
#[derive(Clone, Copy, Debug, PartialEq, Eq, Structural)]
pub enum Tls {
    /// The TLS library of the system.
    Native,
    /// The configuration for destinations.
    Rustls,
    /// The configuration for proxies, and for what is reached through SOCKS.
    RustlsProxy,
}

/// A TLS configuration: its settings, and the protocols to offer by ALPN, which
/// hold whatever the settings say on them.
pub struct TlsConfig {
    pub settings: Arc<rustls::ClientConfig>,
    pub alpn_protocols: Arc<Vec<Vec<u8>>>,
}

/// A TLS handshake that is still to be made over a connection.
#[derive(Debug)]
pub struct Secure {
    /// The host that the certificate is to be held against.
    pub host: String,
    pub tls: Tls,
}

/// What a [`Secure`] says.
pub struct SecureView {
    pub host: Seq<char>,
    pub tls: Tls,
}

impl View for Secure {
    type V = SecureView;

    open spec fn view(&self) -> SecureView {
        SecureView { host: self.host@, tls: self.tls }
    }
}

/// The name that a certificate is held against. The TLS library of the system
/// gets the host as it is; otherwise the host has to be a DNS name.
pub open spec fn server_name(secure: SecureView) -> Result<Seq<char>, ConnectError> {
    match secure.tls {
        Tls::Native => Ok(secure.host),
        _ => if is_dns_name(secure.host) {
            Ok(lower(secure.host))
        } else {
            Err(ConnectError::InvalidDnsName)
        },
    }
}

impl Secure {
    /// The name that the certificate is to be held against.
    pub fn server_name(self) -> (r: Result<String, ConnectError>)
        ensures
            match r {
                Ok(name) => server_name(self@) == Ok::<Seq<char>, ConnectError>(name@),
                Err(e) => server_name(self@) == Err::<Seq<char>, ConnectError>(e),
            },
    {
        match self.tls {
            Tls::Native => Ok(self.host),
            _ => match read_dns_name(self.host.as_str()) {
                Ok(name) => Ok(name),
                Err(_) => Err(ConnectError::InvalidDnsName),
            },
        }
    }
}

/// The name that a certificate is held against is the host: as it is for the TLS
/// library of the system, and else, if it is a DNS name, with `A` to `Z` turned into
/// `a` to `z` and nothing else changed. A host that is none has no such name.
pub proof fn server_names_are_hosts(secure: Secure, r: Result<String, ConnectError>)
    requires
        call_ensures(Secure::server_name, (secure,), r),
    ensures
        match r {
            Ok(name) => {
                &&& secure.tls == Tls::Native || is_dns_name(secure.host@)
                &&& name@.len() == secure.host@.len()
                &&& forall|i: int|
                    0 <= i < name@.len() ==> {
                        let own = secure.host@[i];
                        if secure.tls != Tls::Native && 'A' <= own <= 'Z' {
                            #[trigger] name@[i] as u32 == own as u32 + 32
                        } else {
                            name@[i] == own
                        }
                    }
            },
            Err(e) => {
                &&& e == ConnectError::InvalidDnsName
                &&& secure.tls != Tls::Native
                &&& !is_dns_name(secure.host@)
            },
        },
{
}

} // verus!
