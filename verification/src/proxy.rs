//! Proxies, and addresses on the network.
use vstd::prelude::*;

use crate::header::HeaderValue;
use crate::uri::Authority;

verus! {

/// An IP address, as a number.
#[derive(Clone, Copy, Debug, PartialEq, Eq, Structural)]
pub enum IpAddress {
    V4(u32),
    V6(u128),
}

/// An address to connect to.
#[derive(Clone, Copy, Debug, PartialEq, Eq, Structural)]
#[allow(inconsistent_fields)]
pub enum SocketAddress {
    V4 { ip: u32, port: u16 },
    V6 { ip: u128, port: u16, flowinfo: u32, scope_id: u32 },
}

/// How a proxy is spoken to.
#[derive(Debug)]
#[allow(inconsistent_fields)]
pub enum ProxyScheme {
    Http { auth: Option<HeaderValue>, host: Authority },
    Https { auth: Option<HeaderValue>, host: Authority },
    Socks5 { addr: SocketAddress, auth: Option<(String, String)>, remote_dns: bool },
}

/// What a [`ProxyScheme`] says.
#[allow(inconsistent_fields)]
pub enum ProxySchemeView {
    Http { auth: Option<Seq<u8>>, host: Seq<char> },
    Https { auth: Option<Seq<u8>>, host: Seq<char> },
    Socks5 { addr: SocketAddress, auth: Option<(Seq<char>, Seq<char>)>, remote_dns: bool },
}

/// The bytes of optional credentials.
pub open spec fn auth_bytes(auth: Option<HeaderValue>) -> Option<Seq<u8>> {
    match auth {
        Some(v) => Some(v@),
        None => None,
    }
}

/// A user name and a password, if there are any.
pub open spec fn login_of(auth: Option<(String, String)>) -> Option<(Seq<char>, Seq<char>)> {
    match auth {
        Some((username, password)) => Some((username@, password@)),
        None => None,
    }
}

impl View for ProxyScheme {
    type V = ProxySchemeView;

    open spec fn view(&self) -> ProxySchemeView {
        match *self {
            ProxyScheme::Http { auth, host } => ProxySchemeView::Http {
                auth: auth_bytes(auth),
                host: host@,
            },
            ProxyScheme::Https { auth, host } => ProxySchemeView::Https {
                auth: auth_bytes(auth),
                host: host@,
            },
            ProxyScheme::Socks5 { addr, auth, remote_dns } => ProxySchemeView::Socks5 {
                addr,
                auth: login_of(auth),
                remote_dns,
            },
        }
    }
}

} // verus!
