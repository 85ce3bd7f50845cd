//! The connector: its settings, and which way it takes to a destination.
use std::sync::Arc;
use std::time::Duration;

use vstd::prelude::*;

use crate::attempt::{
    Action, ActionView, AfterDial, AfterDialView, Attempt, AttemptView,
};
use crate::error::ConnectError;
use crate::header::HeaderValue;
use crate::proxy::{auth_bytes, IpAddress, ProxyScheme, ProxySchemeView, SocketAddress};
use crate::socks::{self, socks_start, DnsResolve};
use crate::timeout::{with_timeout, Connecting, ConnectingView};
use crate::tls::{Secure, SecureView, Tls, TlsConfig};
use crate::tunnel::{connect_request, write_request};
use crate::uri::{into_uri, root_destination, Destination, DestinationView, Scheme};
use crate::verbose::Wrapper;

verus! {

/// The settings of the connector that opens TCP connections.
#[derive(Clone, Copy, Debug, PartialEq, Eq, Structural)]
pub struct HttpConnector {
    /// The address that sockets are bound to.
    pub local_address: Option<IpAddress>,
    /// Whether sockets send small packets at once.
    pub nodelay: bool,
    /// Whether URIs that are not `http` ones are refused.
    pub enforce_http: bool,
}

/// The settings that a connector for TCP connections begins with.
pub fn http_connector() -> (r: Result<HttpConnector, BuilderError>)
    ensures
        r == Ok::<HttpConnector, BuilderError>(
            HttpConnector { local_address: None, nodelay: false, enforce_http: true },
        ),
{
    Ok(HttpConnector { local_address: None, nodelay: false, enforce_http: true })
}

/// What connections are made with.
pub enum Inner {
    /// TCP alone.
    Http(HttpConnector),
    /// TCP, and the TLS library of the system.
    DefaultTls(HttpConnector, native_tls::TlsConnector),
    /// TCP, and TLS with one configuration for destinations and one for proxies.
    RustlsTls { http: HttpConnector, tls: TlsConfig, tls_proxy: TlsConfig },
}

/// Makes connections to destinations, through proxies where these apply.
pub struct Connector<P> {
    pub inner: Inner,
    pub proxies: Arc<Vec<P>>,
    pub verbose: Wrapper,
    pub timeout: Option<Duration>,
    /// Whether sockets go on sending small packets at once after a TLS handshake.
    pub nodelay: bool,
    pub user_agent: Option<HeaderValue>,
}

/// The TCP settings of a connector that can also speak TLS. They leave
/// destinations with other schemes to it.
pub open spec fn tls_http_connector(local_addr: Option<IpAddress>) -> HttpConnector {
    HttpConnector { local_address: local_addr, nodelay: false, enforce_http: false }
}

/// The TCP settings that connections are made with.
pub open spec fn tcp_settings(inner: Inner) -> HttpConnector {
    match inner {
        Inner::Http(http) => http,
        Inner::DefaultTls(http, _) => http,
        Inner::RustlsTls { http, .. } => http,
    }
}

/// A connector that is neither verbose nor bound to a time.
pub open spec fn fresh<P>(
    inner: Inner,
    proxies: Arc<Vec<P>>,
    nodelay: bool,
    user_agent: Option<HeaderValue>,
) -> Connector<P> {
    Connector { inner, proxies, verbose: Wrapper(false), timeout: None, nodelay, user_agent }
}

/// What setting up the TLS library of the system leads to: a connector with that
/// library, or an error that holds the one of the library.
pub open spec fn with_default_tls<P>(
    built: Result<native_tls::TlsConnector, native_tls::Error>,
    proxies: Arc<Vec<P>>,
    user_agent: Option<HeaderValue>,
    local_addr: Option<IpAddress>,
    nodelay: bool,
) -> Result<Connector<P>, BuilderError> {
    match built {
        Ok(tls) => Ok(
            fresh(
                Inner::DefaultTls(tls_http_connector(local_addr), tls),
                proxies,
                nodelay,
                user_agent,
            ),
        ),
        Err(source) => Err(BuilderError { source }),
    }
}

/// The configuration for proxies that goes with one for destinations: the same
/// one where there is no proxy, and else one that offers no protocol by ALPN.
pub open spec fn is_proxy_config(tls: TlsConfig, tls_proxy: TlsConfig, any_proxy: bool) -> bool {
    &&& tls_proxy.settings == tls.settings
    &&& if any_proxy {
        tls_proxy.alpn_protocols@ == Seq::<Vec<u8>>::empty()
    } else {
        tls_proxy.alpn_protocols == tls.alpn_protocols
    }
}

/// Whether a destination is spoken to over TLS: it is to be, and the connector can.
pub open spec fn uses_tls<P>(connector: Connector<P>, dst: DestinationView) -> bool {
    dst.is_https() && !(connector.inner is Http)
}

/// How a connection to `dst` without a tunnel begins. The socket sends small
/// packets at once during a TLS handshake. Unless the connector asks for that in
/// general, it is to be undone before the connection is delivered.
pub open spec fn direct<P, E>(connector: Connector<P>, dst: DestinationView, is_proxy: bool) -> (
    AttemptView,
    ActionView<E>,
) {
    let hasten = dst.is_https();
    match connector.inner {
        Inner::Http(http) => (
            AttemptView::Dialing(AfterDialView::Deliver { restore_delay: false, is_proxy }),
            ActionView::Dial { http, tls: None, uri: dst.text },
        ),
        Inner::DefaultTls(http, _) => (
            AttemptView::Dialing(
                AfterDialView::Deliver { restore_delay: !connector.nodelay, is_proxy },
            ),
            ActionView::Dial { http: hastened(http, hasten), tls: Some(Tls::Native), uri: dst.text },
        ),
        Inner::RustlsTls { http, .. } => (
            AttemptView::Dialing(
                AfterDialView::Deliver { restore_delay: !connector.nodelay, is_proxy },
            ),
            ActionView::Dial { http: hastened(http, hasten), tls: Some(Tls::Rustls), uri: dst.text },
        ),
    }
}

/// Settings under which sockets send small packets at once if `hasten` holds.
pub open spec fn hastened(http: HttpConnector, hasten: bool) -> HttpConnector {
    if hasten {
        HttpConnector { nodelay: true, ..http }
    } else {
        http
    }
}

/// What follows a connection to a proxy that is to be a tunnel to `dst`.
pub open spec fn tunnel_to(
    dst: DestinationView,
    user_agent: Option<Seq<u8>>,
    auth: Option<Seq<u8>>,
    tls: Tls,
) -> AfterDialView {
    match dst.host {
        Some(host) => AfterDialView::Tunnel {
            request: connect_request(host, dst.port_or(443), user_agent, auth),
            secure: SecureView { host, tls },
        },
        None => AfterDialView::NoHost,
    }
}

/// How a connection to `dst` through an HTTP proxy begins: through a tunnel if
/// `dst` is to be spoken to over TLS; else the proxy is connected to, and is to
/// forward each request.
pub open spec fn via_http_proxy<P, E>(
    connector: Connector<P>,
    dst: DestinationView,
    scheme: Scheme,
    auth: Option<Seq<u8>>,
    host: Seq<char>,
) -> (AttemptView, ActionView<E>) {
    let proxy_dst = root_destination(scheme, host);
    let user_agent = auth_bytes(connector.user_agent);
    if !dst.is_https() {
        direct(connector, proxy_dst, true)
    } else {
        match connector.inner {
            Inner::Http(_) => direct(connector, proxy_dst, true),
            Inner::DefaultTls(http, _) => (
                AttemptView::Dialing(tunnel_to(dst, user_agent, auth, Tls::Native)),
                ActionView::Dial { http, tls: Some(Tls::Native), uri: proxy_dst.text },
            ),
            Inner::RustlsTls { http, .. } => if dst.host is None {
                (AttemptView::Closed, ActionView::Fail(ConnectError::NoHost))
            } else {
                (
                    AttemptView::Dialing(tunnel_to(dst, user_agent, auth, Tls::Rustls)),
                    ActionView::Dial { http, tls: Some(Tls::RustlsProxy), uri: proxy_dst.text },
                )
            },
        }
    }
}

/// The handshake to make over a SOCKS connection to `dst`, if any.
pub open spec fn socks_secure<P>(connector: Connector<P>, dst: DestinationView) -> Option<
    SecureView,
> {
    match (connector.inner, dst.host) {
        (Inner::DefaultTls(_, _), Some(host)) if dst.is_https() => Some(
            SecureView { host, tls: Tls::Native },
        ),
        (Inner::RustlsTls { .. }, Some(host)) if dst.is_https() => Some(
            SecureView { host, tls: Tls::RustlsProxy },
        ),
        _ => None,
    }
}

/// How a connection to `dst` through a SOCKS proxy begins. Without a host there
/// is nothing to hold a certificate against, and no target for the proxy.
pub open spec fn via_socks_proxy<P, E>(
    connector: Connector<P>,
    dst: DestinationView,
    addr: SocketAddress,
    auth: Option<(Seq<char>, Seq<char>)>,
    remote_dns: bool,
) -> (AttemptView, ActionView<E>) {
    let dns = if remote_dns {
        DnsResolve::Proxy
    } else {
        DnsResolve::Local
    };
    if uses_tls(connector, dst) && dst.host is None {
        (AttemptView::Closed, ActionView::Fail(ConnectError::NoHost))
    } else {
        socks_start(addr, auth, dst, dns, socks_secure(connector, dst))
    }
}

/// How a connection to `dst` through a proxy begins.
pub open spec fn via_proxy<P, E>(
    connector: Connector<P>,
    dst: DestinationView,
    proxy: ProxySchemeView,
) -> (AttemptView, ActionView<E>) {
    match proxy {
        ProxySchemeView::Http { auth, host } => via_http_proxy(
            connector,
            dst,
            Scheme::Http,
            auth,
            host,
        ),
        ProxySchemeView::Https { auth, host } => via_http_proxy(
            connector,
            dst,
            Scheme::Https,
            auth,
            host,
        ),
        ProxySchemeView::Socks5 { addr, auth, remote_dns } => via_socks_proxy(
            connector,
            dst,
            addr,
            auth,
            remote_dns,
        ),
    }
}

/// How a connection begins that a proxy may have claimed.
pub open spec fn via_route<P, E>(
    connector: Connector<P>,
    dst: DestinationView,
    proxy: Option<ProxyScheme>,
) -> (AttemptView, ActionView<E>) {
    match proxy {
        Some(p) => via_proxy(connector, dst, p@),
        None => direct(connector, dst, false),
    }
}

/// How a call begins for a destination that a proxy may have claimed: an attempt
/// on that way, under the settings that the connector has at the time.
pub open spec fn begun<P, E>(
    connector: Connector<P>,
    dst: DestinationView,
    proxy: Option<ProxyScheme>,
) -> (ConnectingView, ActionView<E>) {
    let (attempt, action) = via_route::<P, E>(connector, dst, proxy);
    (
        ConnectingView { attempt, verbose: connector.verbose, timeout: connector.timeout },
        action,
    )
}

/// Whether `found` is what asking the proxies in turn brings: the answer of the
/// first one that claims the destination, or none if none does.
pub open spec fn is_first_claim<P, F: Fn(&P) -> Option<ProxyScheme>>(
    proxies: Seq<P>,
    intercept: F,
    found: Option<ProxyScheme>,
) -> bool {
    match found {
        Some(_) => exists|i: int|
            #![trigger proxies[i]]
            0 <= i < proxies.len() && call_ensures(intercept, (&proxies[i],), found) && forall|
                j: int,
            |
                0 <= j < i ==> call_ensures(intercept, (&#[trigger] proxies[j],), None),
        None => forall|j: int|
            0 <= j < proxies.len() ==> call_ensures(intercept, (&#[trigger] proxies[j],), None),
    }
}

impl<P> Connector<P> {
    /// A connector for TCP alone.
    pub fn new(proxies: Arc<Vec<P>>, local_addr: Option<IpAddress>, nodelay: bool) -> (r: Result<
        Connector<P>,
        BuilderError,
    >)
        ensures
            r == Ok::<Connector<P>, BuilderError>(
                fresh(
                    Inner::Http(
                        HttpConnector { local_address: local_addr, nodelay, enforce_http: true },
                    ),
                    proxies,
                    nodelay,
                    None,
                ),
            ),
    {
        let mut http = http_connector()?;
        http.local_address = local_addr;
        http.nodelay = nodelay;
        Ok(
            Connector {
                inner: Inner::Http(http),
                verbose: Wrapper(false),
                proxies,
                timeout: None,
                nodelay,
                user_agent: None,
            },
        )
    }

    /// A connector with the TLS library of the system, set up as `tls` says. Fails
    /// if and only if that library refuses the set-up, with its error.
    pub fn new_default_tls(
        tls: native_tls::TlsConnectorBuilder,
        proxies: Arc<Vec<P>>,
        user_agent: Option<HeaderValue>,
        local_addr: Option<IpAddress>,
        nodelay: bool,
    ) -> (r: Result<Connector<P>, BuilderError>)
        ensures
            exists|built: Result<native_tls::TlsConnector, native_tls::Error>| #[trigger]
                call_ensures(native_tls::TlsConnectorBuilder::build, (&tls,), built) && r
                    == with_default_tls(built, proxies, user_agent, local_addr, nodelay),
    {
        match tls.build() {
            Ok(tls) => Self::from_built_default_tls(tls, proxies, user_agent, local_addr, nodelay),
            Err(source) => Err(BuilderError { source }),
        }
    }

    /// A connector with the TLS library of the system.
    pub fn from_built_default_tls(
        tls: native_tls::TlsConnector,
        proxies: Arc<Vec<P>>,
        user_agent: Option<HeaderValue>,
        local_addr: Option<IpAddress>,
        nodelay: bool,
    ) -> (r: Result<Connector<P>, BuilderError>)
        ensures
            r == Ok::<Connector<P>, BuilderError>(
                fresh(
                    Inner::DefaultTls(tls_http_connector(local_addr), tls),
                    proxies,
                    nodelay,
                    user_agent,
                ),
            ),
    {
        let mut http = http_connector()?;
        http.local_address = local_addr;
        http.enforce_http = false;
        Ok(
            Connector {
                inner: Inner::DefaultTls(http, tls),
                proxies,
                verbose: Wrapper(false),
                timeout: None,
                nodelay,
                user_agent,
            },
        )
    }

    /// A connector with TLS configurations of its own. Proxies are offered no
    /// protocol by ALPN.
    pub fn new_rustls_tls(
        tls: TlsConfig,
        proxies: Arc<Vec<P>>,
        user_agent: Option<HeaderValue>,
        local_addr: Option<IpAddress>,
        nodelay: bool,
    ) -> (r: Result<Connector<P>, BuilderError>)
        ensures
            ({
                &&& r matches Ok(c)
                &&& c.inner matches Inner::RustlsTls { http, tls: tls_direct, tls_proxy }
                &&& http == tls_http_connector(local_addr)
                &&& tls_direct == tls
                &&& is_proxy_config(tls, tls_proxy, proxies@.len() > 0)
                &&& c == fresh(c.inner, proxies, nodelay, user_agent)
            }),
    {
        let mut http = http_connector()?;
        http.local_address = local_addr;
        http.enforce_http = false;
        let settings = tls.settings.clone();
        let alpn_protocols = if proxies.is_empty() {
            tls.alpn_protocols.clone()
        } else {
            Arc::new(Vec::new())
        };
        let tls_proxy = TlsConfig { settings, alpn_protocols };
        Ok(
            Connector {
                inner: Inner::RustlsTls { http, tls, tls_proxy },
                proxies,
                verbose: Wrapper(false),
                timeout: None,
                nodelay,
                user_agent,
            },
        )
    }

    /// Sets the time that an attempt to connect may take.
    pub fn set_timeout(&mut self, timeout: Option<Duration>)
        ensures
            *final(self) == (Connector { timeout, ..*old(self) }),
    {
        self.timeout = timeout;
    }

    /// Sets whether connections are to be shown in the log.
    pub fn set_verbose(&mut self, enabled: bool)
        ensures
            *final(self) == (Connector { verbose: Wrapper(enabled), ..*old(self) }),
    {
        self.verbose.0 = enabled;
    }

    /// Begins to connect to `dst` through a SOCKS proxy.
    pub fn connect_socks<E>(&self, dst: &Destination, proxy: ProxyScheme) -> (r: (
        Attempt,
        Action<E>,
    ))
        requires
            proxy is Socks5,
        ensures
            (r.0@, r.1@) == via_proxy::<P, E>(*self, dst@, proxy@),
    {
        let https = dst.is_https();
        let secure = match (&self.inner, dst.host()) {
            (Inner::DefaultTls(_, _), Some(host)) if https => Some(
                Secure { host: host.to_owned(), tls: Tls::Native },
            ),
            (Inner::RustlsTls { .. }, Some(host)) if https => Some(
                Secure { host: host.to_owned(), tls: Tls::RustlsProxy },
            ),
            (Inner::Http(_), _) => None,
            (_, None) if https => {
                return (Attempt::Closed, Action::Fail(ConnectError::NoHost));
            },
            _ => None,
        };
        match proxy {
            ProxyScheme::Socks5 { addr, auth, remote_dns } => {
                let dns = if remote_dns {
                    DnsResolve::Proxy
                } else {
                    DnsResolve::Local
                };
                socks::connect(addr, auth, dst, dns, secure)
            },
            _ => {
                assert(false);
                vstd::pervasive::unreached()
            },
        }
    }

    /// Begins to connect to `dst` without a tunnel. If `is_proxy` holds, `dst` is a
    /// proxy that is to forward requests.
    pub fn connect_with_maybe_proxy<E>(&self, dst: &Destination, is_proxy: bool) -> (r: (
        Attempt,
        Action<E>,
    ))
        ensures
            (r.0@, r.1@) == direct::<P, E>(*self, dst@, is_proxy),
    {
        let uri = dst.text().to_owned();
        let (mut http, tls) = match &self.inner {
            Inner::Http(http) => {
                return (
                    Attempt::Dialing(AfterDial::Deliver { restore_delay: false, is_proxy }),
                    Action::Dial { http: *http, tls: None, uri },
                );
            },
            Inner::DefaultTls(http, _) => (*http, Tls::Native),
            Inner::RustlsTls { http, .. } => (*http, Tls::Rustls),
        };
        // Small packets are not to be held back during a handshake.
        if dst.is_https() {
            http.nodelay = true;
        }
        (
            Attempt::Dialing(AfterDial::Deliver { restore_delay: !self.nodelay, is_proxy }),
            Action::Dial { http, tls: Some(tls), uri },
        )
    }

    fn begin_tunnel<E>(
        &self,
        dst: &Destination,
        proxy_dst: &Destination,
        auth: Option<HeaderValue>,
        http: HttpConnector,
        dial_tls: Tls,
        tls: Tls,
    ) -> (r: (Attempt, Action<E>))
        ensures
            (r.0@, r.1@) == (
                AttemptView::Dialing(
                    tunnel_to(dst@, auth_bytes(self.user_agent), auth_bytes(auth), tls),
                ),
                ActionView::<E>::Dial { http, tls: Some(dial_tls), uri: proxy_dst@.text },
            ),
    {
        let port: u16 = dst.port().unwrap_or(443);
        let after = match dst.host() {
            Some(host) => AfterDial::Tunnel {
                request: write_request(host, port, self.user_agent.as_ref(), auth.as_ref()),
                secure: Secure { host: host.to_owned(), tls },
            },
            None => AfterDial::NoHost,
        };
        let uri = proxy_dst.text().to_owned();
        (Attempt::Dialing(after), Action::Dial { http, tls: Some(dial_tls), uri })
    }

    /// Begins to connect to `dst` through a proxy.
    pub fn connect_via_proxy<E>(&self, dst: &Destination, proxy_scheme: ProxyScheme) -> (r: (
        Attempt,
        Action<E>,
    ))
        ensures
            (r.0@, r.1@) == via_proxy::<P, E>(*self, dst@, proxy_scheme@),
    {
        let (proxy_dst, auth) = match proxy_scheme {
            ProxyScheme::Http { auth, host } => (into_uri(Scheme::Http, &host), auth),
            ProxyScheme::Https { auth, host } => (into_uri(Scheme::Https, &host), auth),
            ProxyScheme::Socks5 { .. } => {
                return self.connect_socks(dst, proxy_scheme);
            },
        };
        if dst.is_https() {
            match &self.inner {
                Inner::DefaultTls(http, _) => {
                    return self.begin_tunnel(
                        dst,
                        &proxy_dst,
                        auth,
                        *http,
                        Tls::Native,
                        Tls::Native,
                    );
                },
                Inner::RustlsTls { http, .. } => {
                    if dst.host().is_none() {
                        return (Attempt::Closed, Action::Fail(ConnectError::NoHost));
                    }
                    return self.begin_tunnel(
                        dst,
                        &proxy_dst,
                        auth,
                        *http,
                        Tls::RustlsProxy,
                        Tls::Rustls,
                    );
                },
                Inner::Http(_) => {},
            }
        }
        self.connect_with_maybe_proxy(&proxy_dst, true)
    }

    /// Begins to connect to `dst`, through the first proxy that claims it
    /// (`intercept` asks one), and within the time that is set. The connector's
    /// settings are those of this moment, however they are set afterwards.
    pub fn call<E, F: Fn(&P) -> Option<ProxyScheme>>(&self, dst: &Destination, intercept: F) -> (r: (
        Connecting,
        Action<E>,
    ))
        requires
            forall|i: int|
                0 <= i < self.proxies@.len() ==> call_requires(
                    intercept,
                    (&#[trigger] self.proxies@[i],),
                ),
        ensures
            exists|found: Option<ProxyScheme>| #[trigger]
                is_first_claim(self.proxies@, intercept, found) && (r.0@, r.1@) == begun::<P, E>(
                    *self,
                    dst@,
                    found,
                ),
    {
        let timeout = self.timeout;
        let n: usize = self.proxies.len();
        let mut i: usize = 0;
        while i < n
            invariant
                n == self.proxies@.len(),
                i <= n,
                timeout == self.timeout,
                forall|k: int|
                    0 <= k < self.proxies@.len() ==> call_requires(
                        intercept,
                        (&#[trigger] self.proxies@[k],),
                    ),
                forall|j: int|
                    0 <= j < i ==> call_ensures(
                        intercept,
                        (&#[trigger] self.proxies@[j],),
                        None,
                    ),
            decreases n - i,
        {
            let claim = intercept(&self.proxies[i]);
            if let Some(proxy_scheme) = claim {
                proof {
                    let found = Some(proxy_scheme);
                    assert(call_ensures(intercept, (&self.proxies@[i as int],), found));
                    assert(is_first_claim(self.proxies@, intercept, found));
                }
                let (attempt, action) = self.connect_via_proxy(dst, proxy_scheme);
                return (with_timeout(attempt, self.verbose, timeout), action);
            }
            i = i + 1;
        }
        assert(is_first_claim(self.proxies@, intercept, None));
        let (attempt, action) = self.connect_with_maybe_proxy(dst, false);
        (with_timeout(attempt, self.verbose, timeout), action)
    }
}

/// The TLS library of the system could not be set up.
#[derive(Debug)]
pub struct BuilderError {
    pub source: native_tls::Error,
}

} // verus!
