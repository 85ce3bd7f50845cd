//! What a connector decides, told from what goes in and what comes out of each
//! call on it.
use std::sync::Arc;
use std::time::Duration;

use vstd::prelude::*;

use crate::attempt::{Action, AfterDial, Attempt};
use crate::connector::{
    begun, http_connector, is_first_claim, BuilderError, Connector, HttpConnector, Inner,
};
use crate::error::ConnectError;
use crate::header::HeaderValue;
use crate::proxy::{IpAddress, ProxyScheme, SocketAddress};
use crate::socks::{self, DnsResolve};
use crate::timeout::Connecting;
use crate::tls::{Secure, Tls, TlsConfig};
use crate::tunnel::connect_request;
use crate::uri::Destination;

verus! {

/// A new connector for TCP holds what it was given, and nothing is set beyond it.
pub proof fn tcp_connectors_hold_what_they_are_given<P>(
    proxies: Arc<Vec<P>>,
    local_addr: Option<IpAddress>,
    nodelay: bool,
    r: Result<Connector<P>, BuilderError>,
    settings: Result<HttpConnector, BuilderError>,
)
    requires
        call_ensures(Connector::<P>::new, (proxies, local_addr, nodelay), r),
        call_ensures(http_connector, (), settings),
    ensures
        settings matches Ok(http) && http.local_address is None && !http.nodelay
            && http.enforce_http,
        r matches Ok(c) && c.inner matches Inner::Http(http) && {
            &&& http.local_address == local_addr
            &&& http.nodelay == nodelay
            &&& http.enforce_http
            &&& c.proxies == proxies
            &&& c.nodelay == nodelay
            &&& c.user_agent is None
            &&& c.timeout is None
            &&& !c.verbose.0
        },
{
}

/// A new connector with the TLS library of the system holds that library and what
/// else it was given. Its sockets hold small packets back, and other schemes than
/// `http` pass.
pub proof fn native_connectors_hold_what_they_are_given<P>(
    tls: native_tls::TlsConnector,
    proxies: Arc<Vec<P>>,
    user_agent: Option<HeaderValue>,
    local_addr: Option<IpAddress>,
    nodelay: bool,
    r: Result<Connector<P>, BuilderError>,
)
    requires
        call_ensures(
            Connector::<P>::from_built_default_tls,
            (tls, proxies, user_agent, local_addr, nodelay),
            r,
        ),
    ensures
        r matches Ok(c) && c.inner matches Inner::DefaultTls(http, t) && {
            &&& t == tls
            &&& http.local_address == local_addr
            &&& !http.nodelay
            &&& !http.enforce_http
            &&& c.proxies == proxies
            &&& c.nodelay == nodelay
            &&& c.user_agent == user_agent
            &&& c.timeout is None
            &&& !c.verbose.0
        },
{
}

/// Setting up the TLS library and making a connector with it is one call: it
/// brings what the one with the library that came of it brings, or the library's
/// own error.
pub proof fn native_connectors_set_the_library_up<P>(
    builder: native_tls::TlsConnectorBuilder,
    proxies: Arc<Vec<P>>,
    user_agent: Option<HeaderValue>,
    local_addr: Option<IpAddress>,
    nodelay: bool,
    r: Result<Connector<P>, BuilderError>,
)
    requires
        call_ensures(
            Connector::<P>::new_default_tls,
            (builder, proxies, user_agent, local_addr, nodelay),
            r,
        ),
    ensures
        match r {
            Ok(c) => {
                &&& c.inner matches Inner::DefaultTls(http, t)
                &&& call_ensures(native_tls::TlsConnectorBuilder::build, (&builder,), Ok(t))
                &&& http.local_address == local_addr
                &&& !http.nodelay
                &&& !http.enforce_http
                &&& c.proxies == proxies
                &&& c.nodelay == nodelay
                &&& c.user_agent == user_agent
                &&& c.timeout is None
                &&& !c.verbose.0
            },
            Err(e) => call_ensures(
                native_tls::TlsConnectorBuilder::build,
                (&builder,),
                Err(e.source),
            ),
        },
{
}

/// A new connector with configurations of its own holds the one that it was given
/// for destinations. The one for proxies differs from it only where there are
/// proxies, and then in offering no protocol.
pub proof fn rustls_connectors_hold_what_they_are_given<P>(
    config: TlsConfig,
    proxies: Arc<Vec<P>>,
    user_agent: Option<HeaderValue>,
    local_addr: Option<IpAddress>,
    nodelay: bool,
    r: Result<Connector<P>, BuilderError>,
)
    requires
        call_ensures(
            Connector::<P>::new_rustls_tls,
            (config, proxies, user_agent, local_addr, nodelay),
            r,
        ),
    ensures
        r matches Ok(c) && c.inner matches Inner::RustlsTls { http, tls, tls_proxy } && {
            &&& tls == config
            &&& tls_proxy.settings == config.settings
            &&& proxies@.len() == 0 ==> tls_proxy.alpn_protocols == config.alpn_protocols
            &&& proxies@.len() > 0 ==> tls_proxy.alpn_protocols@.len() == 0
            &&& http.local_address == local_addr
            &&& !http.nodelay
            &&& !http.enforce_http
            &&& c.proxies == proxies
            &&& c.nodelay == nodelay
            &&& c.user_agent == user_agent
            &&& c.timeout is None
            &&& !c.verbose.0
        },
{
}

/// Setting the time sets that, and leaves all else as it was.
pub proof fn setting_the_time_sets_that_alone<P>(c: &mut Connector<P>, timeout: Option<Duration>)
    requires
        call_ensures(Connector::<P>::set_timeout, (c, timeout), ()),
    ensures
        final(c).timeout == timeout,
        final(c).inner == old(c).inner,
        final(c).proxies == old(c).proxies,
        final(c).verbose == old(c).verbose,
        final(c).nodelay == old(c).nodelay,
        final(c).user_agent == old(c).user_agent,
{
}

/// Setting whether connections are shown sets that, and leaves all else as it was.
pub proof fn setting_the_log_sets_that_alone<P>(c: &mut Connector<P>, enabled: bool)
    requires
        call_ensures(Connector::<P>::set_verbose, (c, enabled), ()),
    ensures
        final(c).verbose.0 == enabled,
        final(c).inner == old(c).inner,
        final(c).proxies == old(c).proxies,
        final(c).timeout == old(c).timeout,
        final(c).nodelay == old(c).nodelay,
        final(c).user_agent == old(c).user_agent,
{
}

/// A connection without a tunnel is one to the given URI itself, whatever its host,
/// port and text are, and it is made with the TLS configuration for destinations
/// by every connector that has one. The socket is as the settings say, but that it
/// sends small packets at once if the scheme is `https` and TLS is spoken. The
/// connection is delivered with the mark that was asked for.
pub proof fn direct_connections_are_to_the_destination<P, E>(
    c: &Connector<P>,
    dst: &Destination,
    is_proxy: bool,
    r: (Attempt, Action<E>),
)
    requires
        call_ensures(Connector::<P>::connect_with_maybe_proxy::<E>, (c, dst, is_proxy), r),
    ensures
        r.1 matches Action::Dial { http, tls, uri } && {
            &&& uri@ == dst@.text
            &&& match c.inner {
                Inner::Http(own) => tls is None && http == own,
                Inner::DefaultTls(own, _) => {
                    &&& tls == Some(Tls::Native)
                    &&& http.local_address == own.local_address
                    &&& http.enforce_http == own.enforce_http
                    &&& http.nodelay == (own.nodelay || dst@.scheme == Some("https"@))
                },
                Inner::RustlsTls { http: own, .. } => {
                    &&& tls == Some(Tls::Rustls)
                    &&& http.local_address == own.local_address
                    &&& http.enforce_http == own.enforce_http
                    &&& http.nodelay == (own.nodelay || dst@.scheme == Some("https"@))
                },
            }
        },
        r.0 matches Attempt::Dialing(AfterDial::Deliver { restore_delay, is_proxy: marked }) && {
            &&& marked == is_proxy
            &&& restore_delay == (!c.nodelay && !(c.inner is Http))
        },
{
}

/// Whatever the connector and the destination are, an attempt through an HTTP or
/// HTTPS proxy connects to that proxy: it dials `scheme://authority/` of the proxy,
/// unless it fails before anything is done, which it does only where a destination
/// to be spoken to over TLS has no host.
pub proof fn http_proxies_are_connected_to<P, E>(
    c: &Connector<P>,
    dst: &Destination,
    proxy: ProxyScheme,
    r: (Attempt, Action<E>),
)
    requires
        call_ensures(Connector::<P>::connect_via_proxy::<E>, (c, dst, proxy), r),
    ensures
        match proxy {
            ProxyScheme::Http { host, .. } => match r.1 {
                Action::Dial { uri, .. } => uri@ == "http"@ + "://"@ + host@ + "/"@,
                Action::Fail(e) => e == ConnectError::NoHost && c.inner is RustlsTls && dst@.scheme
                    == Some("https"@) && dst@.host is None && r.0 is Closed,
                _ => false,
            },
            ProxyScheme::Https { host, .. } => match r.1 {
                Action::Dial { uri, .. } => uri@ == "https"@ + "://"@ + host@ + "/"@,
                Action::Fail(e) => e == ConnectError::NoHost && c.inner is RustlsTls && dst@.scheme
                    == Some("https"@) && dst@.host is None && r.0 is Closed,
                _ => false,
            },
            ProxyScheme::Socks5 { .. } => !(r.1 is Dial),
        },
{
}

/// An `https` destination behind an HTTP or HTTPS proxy is reached through a tunnel
/// by every connector that speaks TLS. The proxy is dialled with the connector's
/// own settings, and with the configuration for proxies. It is then asked for the
/// destination's host, and for the port that the destination names or else 443,
/// under the connector's name and with the proxy's own credentials; the handshake
/// through the tunnel is one for the destination's host with the configuration for
/// destinations.
pub proof fn https_is_tunnelled_through_http_proxies<P, E>(
    c: &Connector<P>,
    dst: &Destination,
    proxy: ProxyScheme,
    auth: Option<HeaderValue>,
    r: (Attempt, Action<E>),
)
    requires
        call_ensures(Connector::<P>::connect_via_proxy::<E>, (c, dst, proxy), r),
        match proxy {
            ProxyScheme::Http { auth: a, .. } => a == auth,
            ProxyScheme::Https { auth: a, .. } => a == auth,
            ProxyScheme::Socks5 { .. } => false,
        },
        !(c.inner is Http),
        dst@.scheme == Some("https"@),
    ensures
        match dst@.host {
            Some(host) => {
                &&& r.1 matches Action::Dial { http, tls, .. }
                &&& match c.inner {
                    Inner::Http(_) => false,
                    Inner::DefaultTls(own, _) => http == own && tls == Some(Tls::Native),
                    Inner::RustlsTls { http: own, .. } => http == own && tls == Some(
                        Tls::RustlsProxy,
                    ),
                }
                &&& r.0 matches Attempt::Dialing(AfterDial::Tunnel { request, secure })
                &&& secure.host@ == host
                &&& secure.tls == (if c.inner is DefaultTls {
                    Tls::Native
                } else {
                    Tls::Rustls
                })
                &&& request@ == connect_request(
                    host,
                    match dst@.port {
                        Some(port) => port,
                        None => 443,
                    },
                    match c.user_agent {
                        Some(value) => Some(value@),
                        None => None,
                    },
                    match auth {
                        Some(value) => Some(value@),
                        None => None,
                    },
                )
            },
            None => match c.inner {
                Inner::DefaultTls(own, _) => {
                    &&& r.1 matches Action::Dial { http, tls, .. }
                    &&& http == own
                    &&& tls == Some(Tls::Native)
                    &&& r.0 matches Attempt::Dialing(AfterDial::NoHost)
                },
                _ => r.0 is Closed && r.1 == Action::<E>::Fail(ConnectError::NoHost),
            },
        },
{
}

/// What is not tunnelled through an HTTP or HTTPS proxy is forwarded by it: the
/// attempt is one to the proxy without a tunnel, and delivers a connection that is
/// marked.
pub proof fn the_rest_is_forwarded_by_http_proxies<P, E>(
    c: &Connector<P>,
    dst: &Destination,
    proxy: ProxyScheme,
    r: (Attempt, Action<E>),
)
    requires
        call_ensures(Connector::<P>::connect_via_proxy::<E>, (c, dst, proxy), r),
        !(proxy is Socks5),
        c.inner is Http || dst@.scheme != Some("https"@),
    ensures
        r.1 matches Action::Dial { http, tls, .. } && match c.inner {
            Inner::Http(own) => tls is None && http == own,
            Inner::DefaultTls(own, _) => {
                &&& tls == Some(Tls::Native)
                &&& http.local_address == own.local_address
                &&& http.enforce_http == own.enforce_http
                &&& http.nodelay == (own.nodelay || proxy is Https)
            },
            Inner::RustlsTls { http: own, .. } => {
                &&& tls == Some(Tls::Rustls)
                &&& http.local_address == own.local_address
                &&& http.enforce_http == own.enforce_http
                &&& http.nodelay == (own.nodelay || proxy is Https)
            },
        },
        r.0 matches Attempt::Dialing(AfterDial::Deliver { restore_delay, is_proxy }) && {
            &&& is_proxy
            &&& restore_delay == (!c.nodelay && !(c.inner is Http))
        },
{
    reveal_strlit("http");
    reveal_strlit("https");
    assert("http"@.len() != "https"@.len());
}

/// A SOCKS proxy is asked for the destination's host, and for the port that the
/// destination names whatever its scheme is; only where it names none is that 443
/// for `https` and 80 for any other. If this machine is to look the host up, that
/// comes first and is for the same host and port. Without a host nothing is done.
pub proof fn socks_proxies_are_asked_for_the_destination<E>(
    proxy: SocketAddress,
    auth: Option<(String, String)>,
    dst: &Destination,
    dns: DnsResolve,
    secure: Option<Secure>,
    r: (Attempt, Action<E>),
)
    requires
        call_ensures(socks::connect::<E>, (proxy, auth, dst, dns, secure), r),
    ensures
        match dst@.host {
            None => r.0 is Closed && r.1 == Action::<E>::Fail(ConnectError::NoSocksHost),
            Some(name) => {
                let wanted: u16 = match dst@.port {
                    Some(port) => port,
                    None => if dst@.scheme == Some("https"@) {
                        443
                    } else {
                        80
                    },
                };
                let (target, due) = match r.0 {
                    Attempt::Resolving { target, secure } => (target, secure),
                    Attempt::SocksDialing { secure } => (r.1->target, secure),
                    _ => arbitrary(),
                };
                &&& if dns == DnsResolve::Local {
                    &&& r.0 is Resolving
                    &&& r.1 matches Action::Resolve { host, port }
                    &&& host@ == name
                    &&& port == wanted
                } else {
                    r.0 is SocksDialing && r.1 is SocksDial
                }
                &&& target.proxy == proxy
                &&& target.host@ == name
                &&& target.port == wanted
                &&& match (target.auth, auth) {
                    (Some((user, password)), Some((own, secret))) => user@ == own@ && password@
                        == secret@,
                    (None, None) => true,
                    _ => false,
                }
                &&& match (due, secure) {
                    (Some(s), Some(own)) => s.host@ == own.host@ && s.tls == own.tls,
                    (None, None) => true,
                    _ => false,
                }
            },
        },
{
}

/// Connecting through a SOCKS proxy is asking that proxy for the destination, with
/// the proxy's credentials and the lookup where the proxy wants it. A handshake for
/// the destination's host follows exactly if the scheme is `https` and the
/// connector speaks TLS.
pub proof fn socks_connections_are_through_the_proxy<P, E>(
    c: &Connector<P>,
    dst: &Destination,
    proxy: ProxyScheme,
    secure: Option<Secure>,
    r: (Attempt, Action<E>),
    asked: (Attempt, Action<E>),
)
    requires
        call_ensures(Connector::<P>::connect_socks::<E>, (c, dst, proxy), r)
            || call_ensures(Connector::<P>::connect_via_proxy::<E>, (c, dst, proxy), r),
        proxy matches ProxyScheme::Socks5 { addr, auth, remote_dns } && call_ensures(
            socks::connect::<E>,
            (
                addr,
                auth,
                dst,
                if remote_dns {
                    DnsResolve::Proxy
                } else {
                    DnsResolve::Local
                },
                secure,
            ),
            asked,
        ),
        match secure {
            Some(s) => dst@.scheme == Some("https"@) && !(c.inner is Http) && dst@.host == Some(
                s.host@,
            ) && s.tls == (if c.inner is DefaultTls {
                Tls::Native
            } else {
                Tls::RustlsProxy
            }),
            None => c.inner is Http || dst@.scheme != Some("https"@) || dst@.host is None,
        },
    ensures
        if dst@.host is None && !(c.inner is Http) && dst@.scheme == Some("https"@) {
            r.0 is Closed && r.1 == Action::<E>::Fail(ConnectError::NoHost)
        } else {
            r.0@ == asked.0@ && r.1@ == asked.1@
        },
{
}

/// A call goes the way of the first proxy that claims the destination, for every
/// destination: it begins as connecting through that proxy does, with the time and
/// the log as they are set on the connector. (`claims` is what each proxy answers.)
pub proof fn first_claim_is_honoured<P, E, F: Fn(&P) -> Option<ProxyScheme>>(
    c: &Connector<P>,
    dst: &Destination,
    intercept: F,
    claims: Seq<Option<ProxyScheme>>,
    k: int,
    r: (Connecting, Action<E>),
    through: (Attempt, Action<E>),
)
    requires
        call_ensures(Connector::<P>::call::<E, F>, (c, dst, intercept), r),
        claims.len() == c.proxies@.len(),
        forall|j: int, answer: Option<ProxyScheme>|
            0 <= j < c.proxies@.len() && #[trigger] call_ensures(
                intercept,
                (&c.proxies@[j],),
                answer,
            ) ==> answer == claims[j],
        0 <= k < claims.len(),
        forall|j: int| 0 <= j < k ==> (#[trigger] claims[j]) is None,
        claims[k] matches Some(proxy) && call_ensures(
            Connector::<P>::connect_via_proxy::<E>,
            (c, dst, proxy),
            through,
        ),
    ensures
        r.0.attempt@ == through.0@,
        r.1@ == through.1@,
        r.0.timeout == c.timeout,
        r.0.verbose == c.verbose,
{
    claim_is_found(c, dst, intercept, claims, k, r);
}

/// A destination that some proxy claims is never connected to past the proxies: the
/// first claim decides where the call connects to. An HTTP or HTTPS proxy is
/// dialled at its root; a SOCKS proxy is connected to at its address, and nothing is
/// dialled. This holds of every destination, whatever its scheme is.
pub proof fn claimed_destinations_are_not_dialled<P, E, F: Fn(&P) -> Option<ProxyScheme>>(
    c: &Connector<P>,
    dst: &Destination,
    intercept: F,
    claims: Seq<Option<ProxyScheme>>,
    k: int,
    r: (Connecting, Action<E>),
)
    requires
        call_ensures(Connector::<P>::call::<E, F>, (c, dst, intercept), r),
        claims.len() == c.proxies@.len(),
        forall|j: int, answer: Option<ProxyScheme>|
            0 <= j < c.proxies@.len() && #[trigger] call_ensures(
                intercept,
                (&c.proxies@[j],),
                answer,
            ) ==> answer == claims[j],
        0 <= k < claims.len(),
        forall|j: int| 0 <= j < k ==> (#[trigger] claims[j]) is None,
        claims[k] is Some,
    ensures
        match claims[k] {
            Some(ProxyScheme::Http { host, .. }) => match r.1 {
                Action::Dial { uri, .. } => uri@ == "http"@ + "://"@ + host@ + "/"@,
                Action::Fail(_) => dst@.host is None,
                _ => false,
            },
            Some(ProxyScheme::Https { host, .. }) => match r.1 {
                Action::Dial { uri, .. } => uri@ == "https"@ + "://"@ + host@ + "/"@,
                Action::Fail(_) => dst@.host is None,
                _ => false,
            },
            Some(ProxyScheme::Socks5 { addr, remote_dns, .. }) => match r.1 {
                Action::SocksDial { target } => remote_dns && target.proxy == addr,
                Action::Resolve { .. } => {
                    &&& !remote_dns
                    &&& r.0.attempt matches Attempt::Resolving { target, .. }
                    &&& target.proxy == addr
                },
                Action::Fail(_) => dst@.host is None,
                _ => false,
            },
            None => false,
        },
{
    claim_is_found(c, dst, intercept, claims, k, r);
}

/// Where each proxy gives one answer, the claim that a call goes by is the first.
proof fn claim_is_found<P, E, F: Fn(&P) -> Option<ProxyScheme>>(
    c: &Connector<P>,
    dst: &Destination,
    intercept: F,
    claims: Seq<Option<ProxyScheme>>,
    k: int,
    r: (Connecting, Action<E>),
)
    requires
        call_ensures(Connector::<P>::call::<E, F>, (c, dst, intercept), r),
        claims.len() == c.proxies@.len(),
        forall|j: int, answer: Option<ProxyScheme>|
            0 <= j < c.proxies@.len() && #[trigger] call_ensures(
                intercept,
                (&c.proxies@[j],),
                answer,
            ) ==> answer == claims[j],
        0 <= k < claims.len(),
        forall|j: int| 0 <= j < k ==> (#[trigger] claims[j]) is None,
        claims[k] is Some,
    ensures
        (r.0@, r.1@) == begun::<P, E>(*c, dst@, claims[k]),
{
    let found = choose|found: Option<ProxyScheme>| #[trigger]
        is_first_claim(c.proxies@, intercept, found) && (r.0@, r.1@) == begun::<P, E>(
            *c,
            dst@,
            found,
        );
    match found {
        None => {
            assert(call_ensures(intercept, (&c.proxies@[k],), None));
        },
        Some(_) => {
            let i = choose|i: int|
                #![trigger c.proxies@[i]]
                0 <= i < c.proxies@.len() && call_ensures(intercept, (&c.proxies@[i],), found)
                    && forall|j: int|
                    0 <= j < i ==> call_ensures(intercept, (&#[trigger] c.proxies@[j],), None);
            assert(found == claims[i]);
            if k < i {
                assert(call_ensures(intercept, (&c.proxies@[k],), None));
            }
        },
    }
}

/// A call for a destination that no proxy claims goes directly there, with the time
/// and the log as they are set on the connector.
pub proof fn unclaimed_destinations_are_connected_to_directly<
    P,
    E,
    F: Fn(&P) -> Option<ProxyScheme>,
>(
    c: &Connector<P>,
    dst: &Destination,
    intercept: F,
    r: (Connecting, Action<E>),
    direct: (Attempt, Action<E>),
)
    requires
        call_ensures(Connector::<P>::call::<E, F>, (c, dst, intercept), r),
        forall|j: int, answer: Option<ProxyScheme>|
            0 <= j < c.proxies@.len() && #[trigger] call_ensures(
                intercept,
                (&c.proxies@[j],),
                answer,
            ) ==> answer is None,
        call_ensures(Connector::<P>::connect_with_maybe_proxy::<E>, (c, dst, false), direct),
    ensures
        r.0.attempt@ == direct.0@,
        r.1@ == direct.1@,
        r.0.timeout == c.timeout,
        r.0.verbose == c.verbose,
        r.1 matches Action::Dial { uri, .. } && uri@ == dst@.text,
{
}

} // verus!
