//! What holds of every attempt to connect, whatever the network brings.
use std::time::Duration;

use vstd::prelude::*;

use crate::attempt::{awaits, next, ActionView, AfterDialView, AttemptView, EventView};
use crate::connector::{
    begun, direct, socks_secure, tcp_settings, uses_tls, via_proxy, via_route, Connector,
    HttpConnector, Inner,
};
use crate::error::ConnectError;
use crate::proxy::{auth_bytes, ProxyScheme, ProxySchemeView};
use crate::timeout::{next_timed, ConnectingView, NextView, TimedView};
use crate::tls::{is_dns_name, server_name, SecureView, Tls};
use crate::tunnel::{connect_request, is_complete, is_success, read_verdict, Verdict, REPLY_CAPACITY};
use crate::tunnel_laws::{outcome, reading_is_bounded};
use crate::uri::DestinationView;
use crate::verbose::Wrapper;

verus! {

/// Where an attempt stands, and what it asks for, after a start and some events.
pub open spec fn follow<E>(
    start: (AttemptView, ActionView<E>),
    events: Seq<EventView<E>>,
) -> (AttemptView, ActionView<E>)
    decreases events.len(),
{
    if events.len() == 0 {
        start
    } else {
        next(follow(start, events.drop_last()).0, events.last())
    }
}

/// Whether events can come one after the other: each is one that the action
/// before it can bring.
pub open spec fn possible<E>(
    start: (AttemptView, ActionView<E>),
    events: Seq<EventView<E>>,
) -> bool
    decreases events.len(),
{
    events.len() == 0 || {
        &&& possible(start, events.drop_last())
        &&& awaits(follow(start, events.drop_last()).0, events.last())
    }
}

/// Whether an action ends an attempt.
pub open spec fn is_final<E>(action: ActionView<E>) -> bool {
    ||| action is Finish
    ||| action is Fail
    ||| action is FailSocks
    ||| action is Relay
}

/// How far an attempt is from its end at most.
spec fn distance(attempt: AttemptView) -> int {
    match attempt {
        AttemptView::Dialing(AfterDialView::Tunnel { .. }) => REPLY_CAPACITY + 3,
        AttemptView::Dialing(_) => 2,
        AttemptView::RestoringDelay { .. } => 1,
        AttemptView::Requesting { .. } => REPLY_CAPACITY + 2,
        AttemptView::Replying { received, .. } => REPLY_CAPACITY + 1 - received.len(),
        AttemptView::Resolving { .. } => 3,
        AttemptView::SocksDialing { .. } => 2,
        AttemptView::Handshaking => 1,
        AttemptView::Closed => 0,
    }
}

/// An attempt that is under way has room for more of a reply.
spec fn has_room(attempt: AttemptView) -> bool {
    attempt matches AttemptView::Replying { received, .. } ==> received.len() < REPLY_CAPACITY
}

/// Every attempt comes to an end: however the network behaves, at most
/// [`REPLY_CAPACITY`]` + 3` actions are done before the connection is delivered
/// or given up. The attempt is over exactly when its action says so, and then
/// nothing can follow.
pub proof fn attempts_end<P, E>(
    connector: Connector<P>,
    dst: DestinationView,
    proxy: Option<ProxyScheme>,
    events: Seq<EventView<E>>,
)
    requires
        possible(via_route::<P, E>(connector, dst, proxy), events),
    ensures
        events.len() <= REPLY_CAPACITY + 3,
        ({
            let (attempt, action) = follow(via_route::<P, E>(connector, dst, proxy), events);
            &&& (attempt is Closed) == is_final(action)
            &&& is_final(action) ==> forall|event: EventView<E>| !awaits(attempt, event)
        }),
{
    let start = via_route::<P, E>(connector, dst, proxy);
    assert(distance(start.0) <= REPLY_CAPACITY + 3);
    closer(start, events);
}

proof fn closer<E>(start: (AttemptView, ActionView<E>), events: Seq<EventView<E>>)
    requires
        possible(start, events),
        has_room(start.0),
        (start.0 is Closed) == is_final(start.1),
    ensures
        events.len() + distance(follow(start, events).0) <= distance(start.0),
        distance(follow(start, events).0) >= 0,
        has_room(follow(start, events).0),
        (follow(start, events).0 is Closed) == is_final(follow(start, events).1),
    decreases events.len(),
{
    if events.len() > 0 {
        closer(start, events.drop_last());
    }
}

/// What a tunnel attempt looks like at each point.
spec fn tunnelling<E>(
    at: (AttemptView, ActionView<E>),
    secure: SecureView,
    request: Seq<u8>,
) -> bool {
    match at.0 {
        AttemptView::Dialing(AfterDialView::Tunnel { request: r, secure: s }) => r == request && s
            == secure && at.1 is Dial,
        AttemptView::Requesting { secure: s } => s == secure && at.1 == (ActionView::<E>::Send {
            bytes: request,
        }),
        AttemptView::Replying { secure: s, .. } => s == secure && at.1 is Receive,
        AttemptView::Handshaking => server_name(secure) matches Ok(name) && at.1 == (ActionView::<
            E,
        >::Handshake { tls: secure.tls, name }),
        AttemptView::Closed => is_final(at.1) && (at.1 matches ActionView::Finish { is_proxy }
            ==> !is_proxy),
        _ => false,
    }
}

proof fn tunnelling_goes_on<E>(
    start: (AttemptView, ActionView<E>),
    events: Seq<EventView<E>>,
    secure: SecureView,
    request: Seq<u8>,
)
    requires
        possible(start, events),
        tunnelling(start, secure, request),
    ensures
        tunnelling(follow(start, events), secure, request),
    decreases events.len(),
{
    if events.len() > 0 {
        tunnelling_goes_on(start, events.drop_last(), secure, request);
    }
}

/// What a SOCKS attempt looks like at each point.
spec fn socksifying<E>(at: (AttemptView, ActionView<E>), secure: Option<SecureView>) -> bool {
    match at.0 {
        AttemptView::Resolving { secure: s, .. } => s == secure && at.1 is Resolve,
        AttemptView::SocksDialing { secure: s } => s == secure && at.1 is SocksDial,
        AttemptView::Handshaking => secure matches Some(s) && server_name(s) matches Ok(name)
            && at.1 == (ActionView::<E>::Handshake { tls: s.tls, name }),
        AttemptView::Closed => is_final(at.1) && (at.1 matches ActionView::Finish { is_proxy }
            ==> !is_proxy),
        _ => false,
    }
}

proof fn socksifying_goes_on<E>(
    start: (AttemptView, ActionView<E>),
    events: Seq<EventView<E>>,
    secure: Option<SecureView>,
)
    requires
        possible(start, events),
        socksifying(start, secure),
    ensures
        socksifying(follow(start, events), secure),
    decreases events.len(),
{
    if events.len() > 0 {
        socksifying_goes_on(start, events.drop_last(), secure);
    }
}

/// What an attempt without a tunnel looks like at each point.
spec fn delivering<E>(
    at: (AttemptView, ActionView<E>),
    restore_delay: bool,
    is_proxy: bool,
) -> bool {
    match at.0 {
        AttemptView::Dialing(AfterDialView::Deliver { restore_delay: d, is_proxy: p }) => d
            == restore_delay && p == is_proxy && at.1 is Dial,
        AttemptView::RestoringDelay { is_proxy: p } => p == is_proxy && restore_delay
            && at.1 is RestoreDelay,
        AttemptView::Closed => at.1 is Relay || at.1 == (ActionView::<E>::Finish { is_proxy }),
        _ => false,
    }
}

proof fn delivering_goes_on<E>(
    start: (AttemptView, ActionView<E>),
    events: Seq<EventView<E>>,
    restore_delay: bool,
    is_proxy: bool,
)
    requires
        possible(start, events),
        delivering(start, restore_delay, is_proxy),
    ensures
        delivering(follow(start, events), restore_delay, is_proxy),
    decreases events.len(),
{
    if events.len() > 0 {
        delivering_goes_on(start, events.drop_last(), restore_delay, is_proxy);
    }
}

/// A connection through a proxy that is to be spoken to over TLS, which the
/// connector can, is delivered only right after a handshake over it: the last
/// thing that was asked for and done is a TLS handshake whose certificate is held
/// against the destination's own host, whatever address was connected to on
/// the way. So the proxy never gets to see what is sent to the destination.
pub proof fn proxied_https_ends_in_a_handshake<P, E>(
    connector: Connector<P>,
    dst: DestinationView,
    proxy: ProxySchemeView,
    events: Seq<EventView<E>>,
)
    requires
        uses_tls(connector, dst),
        possible(via_proxy::<P, E>(connector, dst, proxy), events),
        follow(via_proxy::<P, E>(connector, dst, proxy), events).1 is Finish,
    ensures
        events.len() > 0,
        events.last() is Done,
        dst.host is Some,
        follow(via_proxy::<P, E>(connector, dst, proxy), events.drop_last()).1 matches ActionView::Handshake {
            tls,
            name,
        } && server_name(SecureView { host: dst.host->0, tls }) == Ok::<Seq<char>, ConnectError>(
            name,
        ),
{
    follow_known_route(connector, dst, proxy, events.drop_last());
}

/// Which of the three shapes an attempt through a proxy has when TLS is spoken.
proof fn follow_known_route<P, E>(
    connector: Connector<P>,
    dst: DestinationView,
    proxy: ProxySchemeView,
    events: Seq<EventView<E>>,
)
    requires
        uses_tls(connector, dst),
        possible(via_proxy::<P, E>(connector, dst, proxy), events),
    ensures
        ({
            let start = via_proxy::<P, E>(connector, dst, proxy);
            let at = follow(start, events);
            if dst.host is None {
                (at.0 is Closed && is_final(at.1) && !(at.1 is Finish)) || at.0 == AttemptView::Dialing(
                    AfterDialView::NoHost,
                ) && at.1 is Dial
            } else {
                let host = dst.host->0;
                match proxy {
                    ProxySchemeView::Http { auth, .. } | ProxySchemeView::Https { auth, .. } => {
                        &&& start.0 matches AttemptView::Dialing(AfterDialView::Tunnel { secure, request })
                        &&& secure.host == host
                        &&& request == connect_request(
                            host,
                            dst.port_or(443),
                            auth_bytes(connector.user_agent),
                            auth,
                        )
                        &&& tunnelling(at, secure, request)
                    },
                    ProxySchemeView::Socks5 { .. } => {
                        &&& socks_secure(connector, dst) matches Some(secure)
                        &&& secure.host == host
                        &&& socksifying(at, Some(secure))
                    },
                }
            }
        }),
    decreases events.len(),
{
    let start = via_proxy::<P, E>(connector, dst, proxy);
    if dst.host is None {
        if events.len() > 0 {
            follow_known_route(connector, dst, proxy, events.drop_last());
        }
    } else {
        match proxy {
            ProxySchemeView::Http { auth, .. } | ProxySchemeView::Https { auth, .. } => {
                match start.0 {
                    AttemptView::Dialing(AfterDialView::Tunnel { secure, request }) => {
                        tunnelling_goes_on(start, events, secure, request);
                    },
                    _ => {},
                }
            },
            ProxySchemeView::Socks5 { .. } => {
                socksifying_goes_on(start, events, socks_secure(connector, dst));
            },
        }
    }
}

/// Through an HTTP proxy the handshake begins only once the tunnel stands: what
/// the proxy has replied by then begins with a success and is complete.
pub proof fn handshake_waits_for_the_tunnel<P, E>(
    connector: Connector<P>,
    dst: DestinationView,
    proxy: ProxySchemeView,
    events: Seq<EventView<E>>,
)
    requires
        proxy is Http || proxy is Https,
        possible(via_proxy::<P, E>(connector, dst, proxy), events),
        follow(via_proxy::<P, E>(connector, dst, proxy), events).1 is Handshake,
    ensures
        events.len() > 0,
        follow(
            via_proxy::<P, E>(connector, dst, proxy),
            events.drop_last(),
        ).0 matches AttemptView::Replying { received, .. } && events.last() matches EventView::Received(
            chunk,
        ) && is_success(received + chunk) && is_complete(received + chunk),
{
    if uses_tls(connector, dst) {
        if events.len() > 0 {
            follow_known_route(connector, dst, proxy, events.drop_last());
        }
    } else {
        forwarded(connector, dst, proxy, events);
    }
}

/// An attempt through an HTTP proxy without TLS is one to the proxy itself.
proof fn forwarded<P, E>(
    connector: Connector<P>,
    dst: DestinationView,
    proxy: ProxySchemeView,
    events: Seq<EventView<E>>,
)
    requires
        proxy is Http || proxy is Https,
        !uses_tls(connector, dst),
        possible(via_proxy::<P, E>(connector, dst, proxy), events),
    ensures
        ({
            let start = via_proxy::<P, E>(connector, dst, proxy);
            let restore_delay = !(connector.inner is Http) && !connector.nodelay;
            delivering(follow(start, events), restore_delay, true)
        }),
{
    let start = via_proxy::<P, E>(connector, dst, proxy);
    let restore_delay = !(connector.inner is Http) && !connector.nodelay;
    delivering_goes_on(start, events, restore_delay, true);
}

/// The only thing that an attempt writes to a connection is the request for a
/// tunnel to the destination, and it does so only through an HTTP proxy and for
/// a destination to be spoken to over TLS. So the credentials for an HTTP proxy
/// and the name of the client go nowhere else.
pub proof fn nothing_else_is_written<P, E>(
    connector: Connector<P>,
    dst: DestinationView,
    proxy: Option<ProxyScheme>,
    events: Seq<EventView<E>>,
)
    requires
        possible(via_route::<P, E>(connector, dst, proxy), events),
    ensures
        follow(via_route::<P, E>(connector, dst, proxy), events).1 matches ActionView::Send { bytes }
            ==> {
            &&& uses_tls(connector, dst)
            &&& dst.host matches Some(host)
            &&& proxy matches Some(p)
            &&& match p@ {
                ProxySchemeView::Http { auth, .. } | ProxySchemeView::Https { auth, .. } => bytes
                    == connect_request(
                    host,
                    dst.port_or(443),
                    auth_bytes(connector.user_agent),
                    auth,
                ),
                ProxySchemeView::Socks5 { .. } => false,
            }
        },
{
    let start = via_route::<P, E>(connector, dst, proxy);
    match proxy {
        None => {
            let restore_delay = !(connector.inner is Http) && !connector.nodelay;
            delivering_goes_on(start, events, restore_delay, false);
        },
        Some(p) => {
            if p@ is Socks5 {
                through_socks(connector, dst, p@, events);
            } else if uses_tls(connector, dst) {
                follow_known_route(connector, dst, p@, events);
            } else {
                forwarded(connector, dst, p@, events);
            }
        },
    }
}

proof fn through_socks<P, E>(
    connector: Connector<P>,
    dst: DestinationView,
    proxy: ProxySchemeView,
    events: Seq<EventView<E>>,
)
    requires
        proxy is Socks5,
        possible(via_proxy::<P, E>(connector, dst, proxy), events),
    ensures
        socksifying(
            follow(via_proxy::<P, E>(connector, dst, proxy), events),
            socks_secure(connector, dst),
        ),
{
    let start = via_proxy::<P, E>(connector, dst, proxy);
    socksifying_goes_on(start, events, socks_secure(connector, dst));
}

/// A delivered connection is marked as one to a forwarding proxy exactly if it
/// was made to an HTTP proxy without a tunnel. Requests are then written in
/// absolute-form, and otherwise in origin-form.
pub proof fn only_forwarding_proxies_are_marked<P, E>(
    connector: Connector<P>,
    dst: DestinationView,
    proxy: Option<ProxyScheme>,
    events: Seq<EventView<E>>,
)
    requires
        possible(via_route::<P, E>(connector, dst, proxy), events),
    ensures
        follow(via_route::<P, E>(connector, dst, proxy), events).1 matches ActionView::Finish {
            is_proxy,
        } ==> is_proxy == {
            &&& proxy matches Some(p)
            &&& !(p is Socks5)
            &&& !uses_tls(connector, dst)
        },
{
    let start = via_route::<P, E>(connector, dst, proxy);
    match proxy {
        None => {
            let restore_delay = !(connector.inner is Http) && !connector.nodelay;
            delivering_goes_on(start, events, restore_delay, false);
        },
        Some(p) => {
            if p@ is Socks5 {
                through_socks(connector, dst, p@, events);
            } else if uses_tls(connector, dst) {
                follow_known_route(connector, dst, p@, events);
            } else {
                forwarded(connector, dst, p@, events);
            }
        },
    }
}

/// Small packets are sent at once during a TLS handshake with a destination that
/// is connected to without a tunnel, by every connector; without TLS the socket is
/// as the TCP settings say. Unless the connector asks for small packets to be sent
/// at once in general, a socket under TLS is set back before the connection is
/// delivered; if it does, the socket is left alone.
pub proof fn delay_is_restored<P, E>(
    connector: Connector<P>,
    dst: DestinationView,
    is_proxy: bool,
    events: Seq<EventView<E>>,
)
    requires
        !(connector.inner is Http),
        possible(direct::<P, E>(connector, dst, is_proxy), events),
    ensures
        ({
            let start = direct::<P, E>(connector, dst, is_proxy);
            let settings = tcp_settings(connector.inner);
            &&& start.1 matches ActionView::Dial { http, .. } && http == (if dst.is_https() {
                HttpConnector { nodelay: true, ..settings }
            } else {
                settings
            })
            &&& connector.nodelay ==> !(follow(start, events).1 is RestoreDelay)
            &&& (!connector.nodelay && events.len() > 0 && events[0] == (EventView::<E>::Opened {
                https: true,
            }) && follow(start, events).1 is Finish) ==> follow(start, events.drop_last()).1
                == ActionView::<E>::RestoreDelay && events.last() is Done
        }),
{
    let start = direct::<P, E>(connector, dst, is_proxy);
    delivering_goes_on(start, events, !connector.nodelay, is_proxy);
    if events.len() > 0 {
        let before = events.drop_last();
        delivering_goes_on(start, before, !connector.nodelay, is_proxy);
        if before.len() > 0 {
            assert(before[0] == events[0]);
            dialing_comes_first(start, before, !connector.nodelay, is_proxy);
        }
    }
}

/// A direct attempt dials once, and first.
proof fn dialing_comes_first<E>(
    start: (AttemptView, ActionView<E>),
    events: Seq<EventView<E>>,
    restore_delay: bool,
    is_proxy: bool,
)
    requires
        events.len() > 0,
        possible(start, events),
        delivering(start, restore_delay, is_proxy),
    ensures
        !(follow(start, events).0 is Dialing),
    decreases events.len(),
{
    delivering_goes_on(start, events.drop_last(), restore_delay, is_proxy);
}

/// All that an attempt connects to, however it goes: without a proxy the destination
/// itself, with the TLS configuration for destinations if the connector has one;
/// with an HTTP or HTTPS proxy that proxy at its root, and never the destination,
/// whether a tunnel follows or not; with a SOCKS proxy nothing but the proxy at its
/// address.
pub proof fn claims_decide_what_is_connected_to<P, E>(
    connector: Connector<P>,
    dst: DestinationView,
    proxy: Option<ProxyScheme>,
    events: Seq<EventView<E>>,
)
    requires
        possible(via_route::<P, E>(connector, dst, proxy), events),
    ensures
        match follow(via_route::<P, E>(connector, dst, proxy), events).1 {
            ActionView::Dial { tls, uri, .. } => match proxy {
                None => uri == dst.text && tls == (match connector.inner {
                    Inner::Http(_) => None,
                    Inner::DefaultTls(_, _) => Some(Tls::Native),
                    Inner::RustlsTls { .. } => Some(Tls::Rustls),
                }),
                Some(ProxyScheme::Http { host, .. }) => uri == "http"@ + "://"@ + host@ + "/"@
                    && (tls is None) == (connector.inner is Http),
                Some(ProxyScheme::Https { host, .. }) => uri == "https"@ + "://"@ + host@ + "/"@
                    && (tls is None) == (connector.inner is Http),
                Some(ProxyScheme::Socks5 { .. }) => false,
            },
            ActionView::SocksDial { target } => proxy matches Some(
                ProxyScheme::Socks5 { addr, .. },
            ) && target.proxy == addr,
            _ => true,
        },
{
    let start = via_route::<P, E>(connector, dst, proxy);
    if events.len() > 0 {
        socks_dials_follow_the_start(start, events);
    }
}

/// A SOCKS proxy is asked for the port that the destination names, whatever the
/// scheme is, and for 443 or 80 only if it names none and the scheme is `https` or
/// another one. It is asked for the destination's host, or for an address that a
/// lookup of this host brought; the lookup names the same port.
pub proof fn socks_proxies_are_asked_for_the_named_port<P, E>(
    connector: Connector<P>,
    dst: DestinationView,
    proxy: Option<ProxyScheme>,
    events: Seq<EventView<E>>,
)
    requires
        possible(via_route::<P, E>(connector, dst, proxy), events),
    ensures
        ({
            let wanted: u16 = match dst.port {
                Some(port) => port,
                None => if dst.scheme == Some("https"@) {
                    443
                } else {
                    80
                },
            };
            match follow(via_route::<P, E>(connector, dst, proxy), events).1 {
                ActionView::Resolve { host, port } => dst.host == Some(host) && port == wanted,
                ActionView::SocksDial { target } => {
                    &&& target.port == wanted
                    &&& if events.len() == 0 {
                        dst.host == Some(target.host)
                    } else {
                        match events[0] {
                            EventView::Resolved(Some(ip)) => target.host == ip,
                            _ => dst.host == Some(target.host),
                        }
                    }
                },
                _ => true,
            }
        }),
{
    let start = via_route::<P, E>(connector, dst, proxy);
    if events.len() > 0 {
        socks_dials_follow_the_start(start, events);
    }
}

/// What is dialled and looked up is so at the start; a SOCKS proxy is connected to at
/// the start, or right after a lookup then.
proof fn socks_dials_follow_the_start<E>(
    start: (AttemptView, ActionView<E>),
    events: Seq<EventView<E>>,
)
    requires
        events.len() > 0,
        possible(start, events),
    ensures
        !(follow(start, events).1 is Dial),
        !(follow(start, events).1 is Resolve),
        !(follow(start, events).0 is Resolving),
        follow(start, events).1 is SocksDial ==> start.0 is Resolving && events.len() == 1
            && follow(start, events) == next(start.0, events[0]),
    decreases events.len(),
{
    let before = events.drop_last();
    if before.len() > 0 {
        socks_dials_follow_the_start(start, before);
    }
}

/// With a SOCKS proxy that looks up names itself, no name is looked up on this
/// machine.
pub proof fn remote_names_stay_remote<P, E>(
    connector: Connector<P>,
    dst: DestinationView,
    proxy: ProxySchemeView,
    events: Seq<EventView<E>>,
)
    requires
        proxy matches ProxySchemeView::Socks5 { remote_dns, .. } && remote_dns,
        possible(via_proxy::<P, E>(connector, dst, proxy), events),
    ensures
        !(follow(via_proxy::<P, E>(connector, dst, proxy), events).1 is Resolve),
{
    never_resolving(via_proxy::<P, E>(connector, dst, proxy), events);
}

proof fn never_resolving<E>(start: (AttemptView, ActionView<E>), events: Seq<EventView<E>>)
    requires
        possible(start, events),
        !(start.0 is Resolving),
        !(start.1 is Resolve),
    ensures
        !(follow(start, events).0 is Resolving),
        !(follow(start, events).1 is Resolve),
    decreases events.len(),
{
    if events.len() > 0 {
        never_resolving(start, events.drop_last());
    }
}

/// The events of a tunnel that is asked for and answered: the proxy is
/// connected to, the request is written, and the reply is read in pieces.
pub open spec fn tunnel_events<E>(https: bool, chunks: Seq<Seq<u8>>) -> Seq<EventView<E>>
    decreases chunks.len(),
{
    if chunks.len() == 0 {
        seq![EventView::Opened { https }, EventView::Done]
    } else {
        tunnel_events(https, chunks.drop_last()).push(EventView::Received(chunks.last()))
    }
}

/// A destination behind an HTTP proxy that grants the tunnel is reached: if the
/// reply, in whatever pieces it is read, establishes the tunnel with its last
/// piece, a handshake with the destination follows, and once that is done the
/// connection is delivered, and not as one to a forwarding proxy. (Where the
/// handshake takes only DNS names, the host has to be one.)
pub proof fn granted_tunnels_are_delivered<P, E>(
    connector: Connector<P>,
    dst: DestinationView,
    proxy: ProxySchemeView,
    https: bool,
    chunks: Seq<Seq<u8>>,
)
    requires
        proxy is Http || proxy is Https,
        uses_tls(connector, dst),
        dst.host matches Some(host) && (connector.inner is DefaultTls || is_dns_name(host)),
        chunks.len() > 0,
        chunks.flatten().len() <= REPLY_CAPACITY,
        outcome(Seq::empty(), chunks.drop_last()) == Verdict::More,
        outcome(Seq::empty(), chunks) == Verdict::Established,
    ensures
        ({
            let start = via_proxy::<P, E>(connector, dst, proxy);
            let events = tunnel_events::<E>(https, chunks);
            &&& possible(start, events.push(EventView::Done))
            &&& follow(start, events).1 is Handshake
            &&& follow(start, events.push(EventView::Done)) == (
                AttemptView::Closed,
                ActionView::<E>::Finish { is_proxy: false },
            )
        }),
{
    let start = via_proxy::<P, E>(connector, dst, proxy);
    let events = tunnel_events::<E>(https, chunks);
    let before = tunnel_events::<E>(https, chunks.drop_last());
    pieces_add_up(chunks);
    reading_goes_on(start, https, chunks.drop_last());
    last_piece_decides(Seq::empty(), chunks);
    assert(Seq::<u8>::empty() + chunks.drop_last().flatten() =~= chunks.drop_last().flatten());
    assert(events.drop_last() =~= before);
    assert(events.last() == EventView::<E>::Received(chunks.last()));
    assert(possible(start, events));
    assert(follow(start, events).0 is Handshaking);
    let all = events.push(EventView::Done);
    assert(all.drop_last() =~= events);
    assert(all.last() == EventView::<E>::Done);
    assert(possible(start, all));
}

/// A proxy that refuses the tunnel, hangs up or replies at too great length is
/// the end of the attempt, with the failure that the reader finds.
pub proof fn refused_tunnels_fail<P, E>(
    connector: Connector<P>,
    dst: DestinationView,
    proxy: ProxySchemeView,
    https: bool,
    chunks: Seq<Seq<u8>>,
    error: ConnectError,
)
    requires
        proxy is Http || proxy is Https,
        uses_tls(connector, dst),
        dst.host is Some,
        chunks.len() > 0,
        chunks.flatten().len() <= REPLY_CAPACITY,
        outcome(Seq::empty(), chunks.drop_last()) == Verdict::More,
        outcome(Seq::empty(), chunks) == Verdict::Failed(error),
    ensures
        ({
            let start = via_proxy::<P, E>(connector, dst, proxy);
            let events = tunnel_events::<E>(https, chunks);
            &&& possible(start, events)
            &&& follow(start, events) == (AttemptView::Closed, ActionView::<E>::Fail(error))
        }),
{
    let start = via_proxy::<P, E>(connector, dst, proxy);
    let events = tunnel_events::<E>(https, chunks);
    let before = tunnel_events::<E>(https, chunks.drop_last());
    pieces_add_up(chunks);
    reading_goes_on(start, https, chunks.drop_last());
    last_piece_decides(Seq::empty(), chunks);
    assert(Seq::<u8>::empty() + chunks.drop_last().flatten() =~= chunks.drop_last().flatten());
    assert(events.drop_last() =~= before);
    assert(events.last() == EventView::<E>::Received(chunks.last()));
}

/// While more of the reply is to come, the attempt goes on reading it.
proof fn reading_goes_on<E>(
    start: (AttemptView, ActionView<E>),
    https: bool,
    chunks: Seq<Seq<u8>>,
)
    requires
        start.0 matches AttemptView::Dialing(AfterDialView::Tunnel { .. }),
        outcome(Seq::empty(), chunks) == Verdict::More,
    ensures
        ({
            let events = tunnel_events::<E>(https, chunks);
            &&& possible(start, events)
            &&& start.0 matches AttemptView::Dialing(AfterDialView::Tunnel { secure, .. })
            &&& follow(start, events).0 == (AttemptView::Replying {
                received: chunks.flatten(),
                secure,
            })
        }),
    decreases chunks.len(),
{
    let events = tunnel_events::<E>(https, chunks);
    if chunks.len() == 0 {
        let opened: Seq<EventView<E>> = seq![EventView::Opened { https }];
        let none: Seq<EventView<E>> = Seq::empty();
        assert(events.drop_last() =~= opened);
        assert(opened.drop_last() =~= none);
        assert(follow(start, none) == start);
        assert(possible(start, none));
        assert(possible(start, opened));
        assert(chunks.flatten() =~= Seq::<u8>::empty());
    } else {
        let before = chunks.drop_last();
        last_piece_decides(Seq::empty(), chunks);
        reading_goes_on(start, https, before);
        pieces_add_up(chunks);
        reading_is_bounded(chunks);
        assert(Seq::<u8>::empty() + before.flatten() =~= before.flatten());
        assert(events.drop_last() =~= tunnel_events::<E>(https, before));
        assert(events.last() == EventView::<E>::Received(chunks.last()));
    }
}

/// Reading pieces is reading all but the last, and then that.
proof fn last_piece_decides(received: Seq<u8>, chunks: Seq<Seq<u8>>)
    requires
        chunks.len() > 0,
    ensures
        outcome(received, chunks) == (match outcome(received, chunks.drop_last()) {
            Verdict::More => read_verdict(
                received + chunks.drop_last().flatten(),
                chunks.last(),
            ),
            v => v,
        }),
    decreases chunks.len(),
{
    let before = chunks.drop_last();
    if chunks.len() == 1 {
        assert(before.flatten() =~= Seq::<u8>::empty());
        assert(received + before.flatten() =~= received);
        assert(chunks.drop_first() =~= Seq::<Seq<u8>>::empty());
    } else {
        let rest = chunks.drop_first();
        last_piece_decides(received + chunks[0], rest);
        assert(rest.drop_last() =~= before.drop_first());
        assert(received + chunks[0] + rest.drop_last().flatten() =~= received + before.flatten());
    }
}

/// What all pieces hold is what all but the last hold, and then that.
proof fn pieces_add_up(chunks: Seq<Seq<u8>>)
    requires
        chunks.len() > 0,
    ensures
        chunks.flatten() == chunks.drop_last().flatten() + chunks.last(),
    decreases chunks.len(),
{
    let before = chunks.drop_last();
    if chunks.len() == 1 {
        assert(before.flatten() =~= Seq::<u8>::empty());
        assert(chunks.drop_first().flatten() =~= Seq::<u8>::empty());
        assert(chunks.flatten() =~= before.flatten() + chunks.last());
    } else {
        pieces_add_up(chunks.drop_first());
        assert(chunks.drop_first().drop_last() =~= before.drop_first());
        assert(chunks.flatten() =~= before.flatten() + chunks.last());
    }
}

/// The events of a connection through a SOCKS proxy: a lookup unless the proxy
/// does it, the connection, and a handshake if one is due.
pub open spec fn socks_events<E>(
    remote_dns: bool,
    address: Option<Seq<char>>,
    secure: bool,
) -> Seq<EventView<E>> {
    let lookup = if remote_dns {
        Seq::empty()
    } else {
        seq![EventView::Resolved(address)]
    };
    let handshake = if secure {
        seq![EventView::Done]
    } else {
        Seq::empty()
    };
    lookup + seq![EventView::Done] + handshake
}

/// A destination behind a SOCKS proxy that works is reached: after the lookup,
/// if any, the connection and the handshake, if any, the connection is
/// delivered, and not as one to a forwarding proxy. (Where the handshake takes
/// only DNS names, the host has to be one.)
pub proof fn socks_connections_are_delivered<P, E>(
    connector: Connector<P>,
    dst: DestinationView,
    proxy: ProxySchemeView,
    address: Option<Seq<char>>,
)
    requires
        proxy is Socks5,
        dst.host matches Some(host) && (connector.inner is RustlsTls && dst.is_https()
            ==> is_dns_name(host)),
    ensures
        ({
            let start = via_proxy::<P, E>(connector, dst, proxy);
            let events = socks_events::<E>(
                proxy->remote_dns,
                address,
                socks_secure(connector, dst) is Some,
            );
            &&& possible(start, events)
            &&& follow(start, events) == (
                AttemptView::Closed,
                ActionView::<E>::Finish { is_proxy: false },
            )
        }),
{
    let start = via_proxy::<P, E>(connector, dst, proxy);
    let secure = socks_secure(connector, dst);
    let none: Seq<EventView<E>> = Seq::empty();
    let looked_up: Seq<EventView<E>> = if proxy->remote_dns {
        none
    } else {
        seq![EventView::Resolved(address)]
    };
    let connected = looked_up.push(EventView::Done);
    assert(looked_up.len() > 0 ==> looked_up.drop_last() =~= none);
    assert(follow(start, none) == start);
    assert(possible(start, none));
    assert(possible(start, looked_up));
    assert(follow(start, looked_up).0 == (AttemptView::SocksDialing { secure }));
    assert(connected.drop_last() =~= looked_up);
    assert(possible(start, connected));
    let events = socks_events::<E>(proxy->remote_dns, address, secure is Some);
    if secure is Some {
        assert(events =~= connected.push(EventView::Done));
        assert(events.drop_last() =~= connected);
        assert(follow(start, connected).0 is Handshaking);
    } else {
        assert(events =~= connected);
    }
}

/// A failure of the transport is handed on as it is, at whatever point it
/// comes, and ends the attempt.
pub proof fn failures_are_handed_on<E>(attempt: AttemptView, failure: E)
    requires
        awaits(attempt, EventView::Failed(failure)),
    ensures
        next(attempt, EventView::Failed(failure)) == (
            AttemptView::Closed,
            ActionView::Relay(failure),
        ),
{
}

/// Where a call stands after some outcomes of its actions.
pub open spec fn follow_timed<E>(
    connecting: ConnectingView,
    events: Seq<TimedView<E>>,
) -> ConnectingView
    decreases events.len(),
{
    if events.len() == 0 {
        connecting
    } else {
        next_timed(follow_timed(connecting, events.drop_last()), events.last()).0
    }
}

/// A call uses the settings that the connector had when it was made: however often
/// the actions come to something, the time limit and the setting whether the
/// connection is shown in the log stay those. Setting them anew on the connector
/// afterwards, to `timeout` and `verbose`, makes no difference to the way that the
/// call takes either.
pub proof fn settings_are_those_of_the_call<P, E>(
    connector: Connector<P>,
    dst: DestinationView,
    proxy: Option<ProxyScheme>,
    events: Seq<TimedView<E>>,
    timeout: Option<Duration>,
    verbose: Wrapper,
)
    ensures
        ({
            let connecting = begun::<P, E>(connector, dst, proxy).0;
            &&& follow_timed(connecting, events).timeout == connector.timeout
            &&& follow_timed(connecting, events).verbose == connector.verbose
        }),
        via_route::<P, E>(Connector { timeout, verbose, ..connector }, dst, proxy) == via_route::<
            P,
            E,
        >(connector, dst, proxy),
{
    settings_last(begun::<P, E>(connector, dst, proxy).0, events);
}

proof fn settings_last<E>(connecting: ConnectingView, events: Seq<TimedView<E>>)
    ensures
        follow_timed(connecting, events).timeout == connecting.timeout,
        follow_timed(connecting, events).verbose == connecting.verbose,
    decreases events.len(),
{
    if events.len() > 0 {
        settings_last(connecting, events.drop_last());
    }
}

/// A time limit that is kept makes no difference: what comes in time leads a call
/// to where it leads the attempt alone. Once the time is up, the call is over.
pub proof fn kept_limits_make_no_difference<E>(
    connecting: ConnectingView,
    action: ActionView<E>,
    events: Seq<EventView<E>>,
)
    ensures
        ({
            let timed = events.map_values(|event: EventView<E>| TimedView::InTime(event));
            let at = follow_timed(connecting, timed);
            &&& at.attempt == follow((connecting.attempt, action), events).0
            &&& next_timed::<E>(at, TimedView::Elapsed) == (
                ConnectingView { attempt: AttemptView::Closed, ..connecting },
                NextView::<E>::TimedOut,
            )
        }),
    decreases events.len(),
{
    let timed = events.map_values(|event: EventView<E>| TimedView::InTime(event));
    settings_last(connecting, timed);
    if events.len() > 0 {
        kept_limits_make_no_difference(connecting, action, events.drop_last());
        assert(timed.drop_last() =~= events.drop_last().map_values(
            |event: EventView<E>| TimedView::InTime(event),
        ));
    }
}

} // verus!
