//! What each step of an attempt leads to, told from what goes in and what comes
//! out of it.
use std::time::Duration;

use vstd::prelude::*;

use crate::attempt::{awaits, Action, AfterDial, Attempt, Event, SocksTarget};
use crate::conn::Conn;
use crate::error::ConnectError;
use crate::timeout::{with_timeout, Connecting, Next, Timed};
use crate::tls::{is_dns_name, Secure, Tls};
use crate::tunnel::Tunnel;
use crate::verbose::{Wrapped, Wrapper};

verus! {

/// An open connection to deliver is delivered at once with its mark, unless it is
/// under TLS and the socket is to be set back; then that comes first, and the same
/// mark after it.
pub proof fn open_connections_are_delivered<E>(
    restore_delay: bool,
    is_proxy: bool,
    https: bool,
    r: (Attempt, Action<E>),
    last: (Attempt, Action<E>),
)
    requires
        call_ensures(
            Attempt::step::<E>,
            (
                Attempt::Dialing(AfterDial::Deliver { restore_delay, is_proxy }),
                Event::Opened { https },
            ),
            r,
        ),
        call_ensures(
            Attempt::step::<E>,
            (Attempt::RestoringDelay { is_proxy }, Event::Done),
            last,
        ),
    ensures
        if https && restore_delay {
            r.0 == (Attempt::RestoringDelay { is_proxy }) && r.1 is RestoreDelay
        } else {
            r.0 is Closed && r.1 == (Action::<E>::Finish { is_proxy })
        },
        last.0 is Closed,
        last.1 == (Action::<E>::Finish { is_proxy }),
{
}

/// To a proxy that has been connected to for a tunnel, exactly the prepared request
/// is written, over TLS or not. Then its reply is read, from an empty reader and
/// with room for 8192 bytes, and the handshake in store stays the same.
pub proof fn tunnels_are_asked_for<E>(
    request: Vec<u8>,
    secure: Secure,
    https: bool,
    r: (Attempt, Action<E>),
    sent: (Attempt, Action<E>),
)
    requires
        call_ensures(
            Attempt::step::<E>,
            (
                Attempt::Dialing(AfterDial::Tunnel { request, secure }),
                Event::Opened { https },
            ),
            r,
        ),
        call_ensures(Attempt::step::<E>, (Attempt::Requesting { secure }, Event::Done), sent),
    ensures
        r.1 matches Action::Send { bytes } && bytes@ == request@,
        r.0 matches Attempt::Requesting { secure: s } && s.host@ == secure.host@ && s.tls
            == secure.tls,
        sent.1 matches Action::Receive { limit } && limit == 8192,
        sent.0 matches Attempt::Replying { tunnel, secure: s } && tunnel@.len() == 0 && s.host@
            == secure.host@ && s.tls == secure.tls,
{
}

/// Without a host to ask for, nothing is written to a proxy.
pub proof fn nothing_is_asked_for_without_a_host<E>(https: bool, r: (Attempt, Action<E>))
    requires
        call_ensures(
            Attempt::step::<E>,
            (Attempt::Dialing(AfterDial::NoHost), Event::Opened { https }),
            r,
        ),
    ensures
        r.0 is Closed,
        r.1 == Action::<E>::Fail(ConnectError::NoHost),
{
}

/// What a proxy replies goes by its first twelve bytes, once all that has come is
/// taken together: anything but `HTTP/1.1 200` and `HTTP/1.0 200` ends the attempt,
/// a demand for credentials with a failure of its own; so does the end of the
/// stream. A success leads to a handshake only if it ends with an empty line, and
/// otherwise to another read with the room that is left, as long as there is some.
pub proof fn replies_decide_on_the_tunnel<E>(
    tunnel: Tunnel,
    secure: Secure,
    chunk: Vec<u8>,
    r: (Attempt, Action<E>),
)
    requires
        call_ensures(
            Attempt::step::<E>,
            (Attempt::Replying { tunnel, secure }, Event::Received(chunk)),
            r,
        ),
    ensures
        ({
            let all = tunnel@ + chunk@;
            let begins = |status: Seq<u8>| all.len() >= 12 && all.take(12) == status;
            let granted = begins(seq![72u8, 84, 84, 80, 47, 49, 46, 49, 32, 50, 48, 48])
                || begins(seq![72u8, 84, 84, 80, 47, 49, 46, 48, 32, 50, 48, 48]);
            let ended = all.len() >= 4 && all.skip(all.len() - 4) == seq![13u8, 10, 13, 10];
            if chunk@.len() == 0 {
                r.0 is Closed && r.1 == Action::<E>::Fail(ConnectError::TunnelEof)
            } else if granted && ended {
                r.1 is Handshake || (r.1 == Action::<E>::Fail(ConnectError::InvalidDnsName)
                    && !is_dns_name(secure.host@) && secure.tls != Tls::Native)
            } else if granted && all.len() >= 8192 {
                r.0 is Closed && r.1 == Action::<E>::Fail(ConnectError::HeadersTooLong)
            } else if granted {
                &&& r.1 matches Action::Receive { limit }
                &&& limit == 8192 - all.len()
                &&& r.0 matches Attempt::Replying { tunnel: t, secure: s }
                &&& t@ == all
                &&& s.host@ == secure.host@
                &&& s.tls == secure.tls
            } else if begins(seq![72u8, 84, 84, 80, 47, 49, 46, 49, 32, 52, 48, 55]) {
                r.0 is Closed && r.1 == Action::<E>::Fail(ConnectError::ProxyAuthRequired)
            } else {
                r.0 is Closed && r.1 == Action::<E>::Fail(ConnectError::Unsuccessful)
            }
        }),
{
    crate::tunnel_laws::verdict_by_bytes(tunnel@, chunk@);
}

/// A handshake is made, over a granted tunnel as over a SOCKS connection, with the
/// configuration that was chosen for it, and for the host that it was chosen with.
/// The TLS library of the system is given the host as it is; otherwise the host
/// has to be a DNS name, and is given with `A` to `Z` turned into `a` to `z`.
pub proof fn handshakes_are_for_the_host<E>(
    attempt: Attempt,
    event: Event<E>,
    secure: Secure,
    r: (Attempt, Action<E>),
)
    requires
        call_ensures(Attempt::step::<E>, (attempt, event), r),
        match (attempt, event) {
            (Attempt::Replying { tunnel, secure: s }, Event::Received(chunk)) => {
                let all = tunnel@ + chunk@;
                &&& s == secure
                &&& chunk@.len() > 0
                &&& all.len() >= 12
                &&& all.take(12) == seq![72u8, 84, 84, 80, 47, 49, 46, 49, 32, 50, 48, 48]
                    || all.take(12) == seq![72u8, 84, 84, 80, 47, 49, 46, 48, 32, 50, 48, 48]
                &&& all.skip(all.len() - 4) == seq![13u8, 10, 13, 10]
            },
            (Attempt::SocksDialing { secure: Some(s) }, Event::Done) => s == secure,
            _ => false,
        },
    ensures
        if secure.tls == Tls::Native || is_dns_name(secure.host@) {
            &&& r.0 is Handshaking
            &&& r.1 matches Action::Handshake { tls, name }
            &&& tls == secure.tls
            &&& name@.len() == secure.host@.len()
            &&& forall|i: int|
                0 <= i < name@.len() ==> {
                    let own = secure.host@[i];
                    if secure.tls != Tls::Native && 'A' <= own <= 'Z' {
                        #[trigger] name@[i] as u32 == own as u32 + 32
                    } else {
                        name@[i] == own
                    }
                }
        } else {
            r.0 is Closed && r.1 == Action::<E>::Fail(ConnectError::InvalidDnsName)
        },
{
    match (attempt, event) {
        (Attempt::Replying { tunnel, .. }, Event::Received(chunk)) => {
            crate::tunnel_laws::verdict_by_bytes(tunnel@, chunk@);
        },
        _ => {},
    }
}

/// A connection is delivered without a mark after a handshake, and after a SOCKS
/// connection over which none is due.
pub proof fn handshakes_end_in_delivery<E>(r: (Attempt, Action<E>), plain: (Attempt, Action<E>))
    requires
        call_ensures(Attempt::step::<E>, (Attempt::Handshaking, Event::Done), r),
        call_ensures(
            Attempt::step::<E>,
            (Attempt::SocksDialing { secure: None }, Event::Done),
            plain,
        ),
    ensures
        r.0 is Closed,
        r.1 == (Action::<E>::Finish { is_proxy: false }),
        plain.0 is Closed,
        plain.1 == (Action::<E>::Finish { is_proxy: false }),
{
}

/// After a lookup the SOCKS proxy is asked for the address that was found, or for the
/// name if none was. Nothing else about what it is asked for changes.
pub proof fn lookups_change_the_host_alone<E>(
    target: SocksTarget,
    secure: Option<Secure>,
    address: Option<String>,
    r: (Attempt, Action<E>),
)
    requires
        call_ensures(
            Attempt::step::<E>,
            (Attempt::Resolving { target, secure }, Event::Resolved(address)),
            r,
        ),
    ensures
        r.1 matches Action::SocksDial { target: asked } && {
            &&& asked.proxy == target.proxy
            &&& asked.port == target.port
            &&& match (asked.auth, target.auth) {
                (Some((user, password)), Some((own, secret))) => user@ == own@ && password@
                    == secret@,
                (None, None) => true,
                _ => false,
            }
            &&& match address {
                Some(ip) => asked.host@ == ip@,
                None => asked.host@ == target.host@,
            }
        },
        r.0 matches Attempt::SocksDialing { secure: due } && match (due, secure) {
            (Some(s), Some(own)) => s.host@ == own.host@ && s.tls == own.tls,
            (None, None) => true,
            _ => false,
        },
{
}

/// Whatever the reason that a SOCKS proxy could not be used for, it is told in the
/// failure, after a fixed text.
pub proof fn socks_failures_tell_the_reason<E>(
    secure: Option<Secure>,
    reason: String,
    r: (Attempt, Action<E>),
)
    requires
        call_ensures(
            Attempt::step::<E>,
            (Attempt::SocksDialing { secure }, Event::SocksFailed(reason)),
            r,
        ),
    ensures
        r.0 is Closed,
        r.1 matches Action::FailSocks { message } && message@ == "socks connect error: "@
            + reason@,
{
}

/// A failure of the transport ends every attempt, and is handed on as it is.
pub proof fn transport_failures_are_handed_on<E>(
    attempt: Attempt,
    failure: E,
    r: (Attempt, Action<E>),
)
    requires
        call_ensures(Attempt::step::<E>, (attempt, Event::Failed(failure)), r),
    ensures
        r.0 is Closed,
        r.1 == Action::<E>::Relay(failure),
{
}

/// No step dials: the one connection that an attempt dials is the one that it
/// begins with. Nor does any step look a host up.
pub proof fn steps_never_dial<E>(attempt: Attempt, event: Event<E>, r: (Attempt, Action<E>))
    requires
        call_ensures(Attempt::step::<E>, (attempt, event), r),
        awaits(attempt@, event@),
    ensures
        !(r.1 is Dial),
        !(r.1 is Resolve),
        !(r.0 is Dialing),
        !(r.0 is Resolving),
{
}

/// Under a time limit that is kept, a step is one of the attempt itself. The limit
/// and the log stay as they are.
pub proof fn steps_in_time_are_steps<E>(
    connecting: Connecting,
    event: Event<E>,
    r: (Connecting, Next<E>),
    alone: (Attempt, Action<E>),
)
    requires
        call_ensures(Connecting::step::<E>, (connecting, Timed::InTime(event)), r),
        call_ensures(Attempt::step::<E>, (connecting.attempt, event), alone),
    ensures
        r.0.attempt@ == alone.0@,
        r.1 matches Next::Act(action) && action@ == alone.1@,
        r.0.timeout == connecting.timeout,
        r.0.verbose == connecting.verbose,
{
}

/// Once the time is up an attempt is over, wherever it stood.
pub proof fn time_ends_attempts<E>(connecting: Connecting, r: (Connecting, Next<E>))
    requires
        call_ensures(Connecting::step::<E>, (connecting, Timed::Elapsed), r),
    ensures
        r.0.attempt is Closed,
        r.1 is TimedOut,
        r.0.timeout == connecting.timeout,
        r.0.verbose == connecting.verbose,
{
}

/// Binding an attempt to a time changes nothing about it.
pub proof fn attempts_are_kept_under_a_limit(
    attempt: Attempt,
    verbose: Wrapper,
    timeout: Option<Duration>,
    r: Connecting,
)
    requires
        call_ensures(with_timeout, (attempt, verbose, timeout), r),
    ensures
        r.attempt == attempt,
        r.verbose == verbose,
        r.timeout == timeout,
{
}

/// A delivered connection is the one that was made, with the mark that it is to
/// have. It is shown in the log exactly if that was set for the call and the log
/// takes such lines, under the low half of the random number.
pub proof fn delivered_connections_are_the_ones_made<T>(
    connecting: &Connecting,
    conn: T,
    is_proxy: bool,
    trace_enabled: bool,
    random: u64,
    r: Conn<Wrapped<T>>,
)
    requires
        call_ensures(
            Connecting::deliver::<T>,
            (connecting, conn, is_proxy, trace_enabled, random),
            r,
        ),
    ensures
        r.is_proxy == is_proxy,
        match r.inner {
            Wrapped::Verbose(shown) => {
                &&& connecting.verbose.0
                &&& trace_enabled
                &&& shown.inner == conn
                &&& shown.id == random % 0x1_0000_0000
            },
            Wrapped::Plain(own) => own == conn && !(connecting.verbose.0 && trace_enabled),
        },
{
}

} // verus!
