//! Connecting through a SOCKS proxy.
use vstd::prelude::*;

use crate::attempt::{
    secure_of, Action, ActionView, Attempt, AttemptView, SocksTarget, SocksTargetView,
};
use crate::error::ConnectError;
use crate::proxy::{login_of, SocketAddress};
use crate::tls::{Secure, SecureView};
use crate::uri::{Destination, DestinationView};

verus! {

/// Who looks up the destination's host.
#[derive(Clone, Copy, Debug, PartialEq, Eq, Structural)]
pub enum DnsResolve {
    /// This machine does, and the proxy is given an address.
    Local,
    /// The proxy does, and is given the name.
    Proxy,
}

/// The target that a SOCKS proxy is asked for before any lookup.
pub open spec fn socks_target(
    proxy: SocketAddress,
    auth: Option<(Seq<char>, Seq<char>)>,
    dst: DestinationView,
    host: Seq<char>,
) -> SocksTargetView {
    SocksTargetView {
        proxy,
        auth,
        host,
        port: dst.port_or(
            if dst.is_https() {
                443
            } else {
                80
            },
        ),
    }
}

/// How a connection through a SOCKS proxy begins: with a lookup or at the proxy,
/// unless there is no host to connect to.
pub open spec fn socks_start<E>(
    proxy: SocketAddress,
    auth: Option<(Seq<char>, Seq<char>)>,
    dst: DestinationView,
    dns: DnsResolve,
    secure: Option<SecureView>,
) -> (AttemptView, ActionView<E>) {
    match dst.host {
        None => (AttemptView::Closed, ActionView::Fail(ConnectError::NoSocksHost)),
        Some(host) => {
            let target = socks_target(proxy, auth, dst, host);
            match dns {
                DnsResolve::Local => (
                    AttemptView::Resolving { target, secure },
                    ActionView::Resolve { host, port: target.port },
                ),
                DnsResolve::Proxy => (
                    AttemptView::SocksDialing { secure },
                    ActionView::SocksDial { target },
                ),
            }
        },
    }
}

/// Begins to connect to `dst` through a SOCKS proxy; `secure` is the handshake to
/// make over the connection, if any.
pub fn connect<E>(
    proxy: SocketAddress,
    auth: Option<(String, String)>,
    dst: &Destination,
    dns: DnsResolve,
    secure: Option<Secure>,
) -> (r: (Attempt, Action<E>))
    ensures
        (r.0@, r.1@) == socks_start::<E>(proxy, login_of(auth), dst@, dns, secure_of(secure)),
{
    let https = dst.is_https();
    let host = match dst.host() {
        Some(h) => h.to_owned(),
        None => {
            return (Attempt::Closed, Action::Fail(ConnectError::NoSocksHost));
        },
    };
    let port: u16 = match dst.port() {
        Some(p) => p,
        None => if https {
            443
        } else {
            80
        },
    };
    match dns {
        DnsResolve::Local => {
            let wanted = host.clone();
            let target = SocksTarget { proxy, auth, host, port };
            (Attempt::Resolving { target, secure }, Action::Resolve { host: wanted, port })
        },
        DnsResolve::Proxy => {
            let target = SocksTarget { proxy, auth, host, port };
            (Attempt::SocksDialing { secure }, Action::SocksDial { target })
        },
    }
}

} // verus!
