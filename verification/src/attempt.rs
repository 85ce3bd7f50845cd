//! The course of one attempt to connect: which step follows from what the step
//! before brought.
use vstd::prelude::*;

use crate::connector::HttpConnector;
use crate::error::ConnectError;
use crate::proxy::{login_of, SocketAddress};
use crate::tls::{server_name, Secure, SecureView, Tls};
use crate::tunnel::{read_verdict, Tunnel, Verdict, REPLY_CAPACITY};
use crate::uri::text_of;

verus! {

/// What a SOCKS proxy is asked for.
#[derive(Debug)]
pub struct SocksTarget {
    /// The address of the proxy.
    pub proxy: SocketAddress,
    /// The user name and the password for the proxy.
    pub auth: Option<(String, String)>,
    /// The host to connect to, by name or by address.
    pub host: String,
    pub port: u16,
}

/// What a [`SocksTarget`] says.
pub struct SocksTargetView {
    pub proxy: SocketAddress,
    pub auth: Option<(Seq<char>, Seq<char>)>,
    pub host: Seq<char>,
    pub port: u16,
}

impl View for SocksTarget {
    type V = SocksTargetView;

    open spec fn view(&self) -> SocksTargetView {
        SocksTargetView {
            proxy: self.proxy,
            auth: login_of(self.auth),
            host: self.host@,
            port: self.port,
        }
    }
}

/// What an attempt asks to be done next.
#[derive(Debug)]
#[allow(inconsistent_fields)]
pub enum Action<E> {
    /// Open a connection to a URI, over TLS if the URI says so and a
    /// configuration is given.
    Dial { http: HttpConnector, tls: Option<Tls>, uri: String },
    /// Let the socket under the connection gather small packets again.
    RestoreDelay,
    /// Write bytes to the connection.
    Send { bytes: Vec<u8> },
    /// Read from the connection, at most `limit` bytes.
    Receive { limit: usize },
    /// Look up the addresses of a host.
    Resolve { host: String, port: u16 },
    /// Connect through a SOCKS proxy.
    SocksDial { target: SocksTarget },
    /// Make a TLS handshake over the connection.
    Handshake { tls: Tls, name: String },
    /// Deliver the connection.
    Finish { is_proxy: bool },
    /// Give up, with a failure of the attempt.
    Fail(ConnectError),
    /// Give up, because the SOCKS proxy could not be used.
    FailSocks { message: String },
    /// Give up, with a failure of the transport as it is.
    Relay(E),
}

/// What an [`Action`] says.
#[allow(inconsistent_fields)]
pub enum ActionView<E> {
    Dial { http: HttpConnector, tls: Option<Tls>, uri: Seq<char> },
    RestoreDelay,
    Send { bytes: Seq<u8> },
    Receive { limit: int },
    Resolve { host: Seq<char>, port: u16 },
    SocksDial { target: SocksTargetView },
    Handshake { tls: Tls, name: Seq<char> },
    Finish { is_proxy: bool },
    Fail(ConnectError),
    FailSocks { message: Seq<char> },
    Relay(E),
}

impl<E> View for Action<E> {
    type V = ActionView<E>;

    open spec fn view(&self) -> ActionView<E> {
        match *self {
            Action::Dial { http, tls, uri } => ActionView::Dial { http, tls, uri: uri@ },
            Action::RestoreDelay => ActionView::RestoreDelay,
            Action::Send { bytes } => ActionView::Send { bytes: bytes@ },
            Action::Receive { limit } => ActionView::Receive { limit: limit as int },
            Action::Resolve { host, port } => ActionView::Resolve { host: host@, port },
            Action::SocksDial { target } => ActionView::SocksDial { target: target@ },
            Action::Handshake { tls, name } => ActionView::Handshake { tls, name: name@ },
            Action::Finish { is_proxy } => ActionView::Finish { is_proxy },
            Action::Fail(e) => ActionView::Fail(e),
            Action::FailSocks { message } => ActionView::FailSocks { message: message@ },
            Action::Relay(e) => ActionView::Relay(e),
        }
    }
}

/// What doing an action brought.
#[derive(Debug)]
pub enum Event<E> {
    /// A connection is open, over TLS or not.
    Opened { https: bool },
    /// The action is done.
    Done,
    /// Bytes have been read. None is the end of the stream.
    Received(Vec<u8>),
    /// The first address of the host, or none.
    Resolved(Option<String>),
    /// The SOCKS proxy could not be used, and why.
    SocksFailed(String),
    /// The transport failed.
    Failed(E),
}

/// What an [`Event`] says.
pub enum EventView<E> {
    Opened { https: bool },
    Done,
    Received(Seq<u8>),
    Resolved(Option<Seq<char>>),
    SocksFailed(Seq<char>),
    Failed(E),
}

impl<E> View for Event<E> {
    type V = EventView<E>;

    open spec fn view(&self) -> EventView<E> {
        match *self {
            Event::Opened { https } => EventView::Opened { https },
            Event::Done => EventView::Done,
            Event::Received(bytes) => EventView::Received(bytes@),
            Event::Resolved(address) => EventView::Resolved(text_of(address)),
            Event::SocksFailed(reason) => EventView::SocksFailed(reason@),
            Event::Failed(e) => EventView::Failed(e),
        }
    }
}

/// What is to be done with a connection once it is open.
#[derive(Debug)]
pub enum AfterDial {
    /// Deliver it, once the socket gathers small packets again if it is under TLS
    /// and `restore_delay` holds.
    Deliver { restore_delay: bool, is_proxy: bool },
    /// Ask for a tunnel, and make a handshake through it.
    Tunnel { request: Vec<u8>, secure: Secure },
    /// Give up: there is no host to ask for.
    NoHost,
}

/// What an [`AfterDial`] says.
pub enum AfterDialView {
    Deliver { restore_delay: bool, is_proxy: bool },
    Tunnel { request: Seq<u8>, secure: SecureView },
    NoHost,
}

impl View for AfterDial {
    type V = AfterDialView;

    open spec fn view(&self) -> AfterDialView {
        match *self {
            AfterDial::Deliver { restore_delay, is_proxy } => AfterDialView::Deliver {
                restore_delay,
                is_proxy,
            },
            AfterDial::Tunnel { request, secure } => AfterDialView::Tunnel {
                request: request@,
                secure: secure@,
            },
            AfterDial::NoHost => AfterDialView::NoHost,
        }
    }
}

/// An attempt to connect, between two steps.
#[derive(Debug)]
#[allow(inconsistent_fields)]
pub enum Attempt {
    /// A connection is being opened.
    Dialing(AfterDial),
    /// The socket is being set back.
    RestoringDelay { is_proxy: bool },
    /// A tunnel is being asked for.
    Requesting { secure: Secure },
    /// The proxy's reply is being read.
    Replying { tunnel: Tunnel, secure: Secure },
    /// The host is being looked up.
    Resolving { target: SocksTarget, secure: Option<Secure> },
    /// A connection through a SOCKS proxy is being opened.
    SocksDialing { secure: Option<Secure> },
    /// A handshake is being made.
    Handshaking,
    /// The attempt is over.
    Closed,
}

/// What an [`Attempt`] says.
#[allow(inconsistent_fields)]
pub enum AttemptView {
    Dialing(AfterDialView),
    RestoringDelay { is_proxy: bool },
    Requesting { secure: SecureView },
    Replying { received: Seq<u8>, secure: SecureView },
    Resolving { target: SocksTargetView, secure: Option<SecureView> },
    SocksDialing { secure: Option<SecureView> },
    Handshaking,
    Closed,
}

/// What an optional handshake says.
pub open spec fn secure_of(secure: Option<Secure>) -> Option<SecureView> {
    match secure {
        Some(s) => Some(s@),
        None => None,
    }
}

impl View for Attempt {
    type V = AttemptView;

    open spec fn view(&self) -> AttemptView {
        match *self {
            Attempt::Dialing(after) => AttemptView::Dialing(after@),
            Attempt::RestoringDelay { is_proxy } => AttemptView::RestoringDelay { is_proxy },
            Attempt::Requesting { secure } => AttemptView::Requesting { secure: secure@ },
            Attempt::Replying { tunnel, secure } => AttemptView::Replying {
                received: tunnel@,
                secure: secure@,
            },
            Attempt::Resolving { target, secure } => AttemptView::Resolving {
                target: target@,
                secure: secure_of(secure),
            },
            Attempt::SocksDialing { secure } => AttemptView::SocksDialing {
                secure: secure_of(secure),
            },
            Attempt::Handshaking => AttemptView::Handshaking,
            Attempt::Closed => AttemptView::Closed,
        }
    }
}

/// Which events can follow: those that the action in hand can bring.
pub open spec fn awaits<E>(attempt: AttemptView, event: EventView<E>) -> bool {
    match attempt {
        AttemptView::Dialing(_) => event is Opened || event is Failed,
        AttemptView::RestoringDelay { .. } => event is Done || event is Failed,
        AttemptView::Requesting { .. } => event is Done || event is Failed,
        AttemptView::Replying { received, .. } => match event {
            EventView::Received(chunk) => received.len() + chunk.len() <= REPLY_CAPACITY,
            EventView::Failed(_) => true,
            _ => false,
        },
        AttemptView::Resolving { .. } => event is Resolved || event is Failed,
        AttemptView::SocksDialing { .. } => event is Done || event is SocksFailed,
        AttemptView::Handshaking => event is Done || event is Failed,
        AttemptView::Closed => false,
    }
}

/// The beginning of a handshake, or the failure that there is no name for it.
pub open spec fn begin_handshake<E>(secure: SecureView) -> (AttemptView, ActionView<E>) {
    match server_name(secure) {
        Ok(name) => (AttemptView::Handshaking, ActionView::Handshake { tls: secure.tls, name }),
        Err(e) => (AttemptView::Closed, ActionView::Fail(e)),
    }
}

/// The target of a SOCKS connection once the host has been looked up: the
/// address, if there is one, and else the name after all.
pub open spec fn resolved_target(
    target: SocksTargetView,
    address: Option<Seq<char>>,
) -> SocksTargetView {
    match address {
        Some(ip) => SocksTargetView { host: ip, ..target },
        None => target,
    }
}

/// What follows from an event that is awaited.
pub open spec fn next<E>(attempt: AttemptView, event: EventView<E>) -> (AttemptView, ActionView<E>)
    recommends
        awaits(attempt, event),
{
    match (attempt, event) {
        // The transport's own failures end the attempt and are handed on.
        (_, EventView::Failed(e)) => (AttemptView::Closed, ActionView::Relay(e)),
        (
            AttemptView::Dialing(AfterDialView::Deliver { restore_delay, is_proxy }),
            EventView::Opened { https },
        ) => if https && restore_delay {
            (AttemptView::RestoringDelay { is_proxy }, ActionView::RestoreDelay)
        } else {
            (AttemptView::Closed, ActionView::Finish { is_proxy })
        },
        (
            AttemptView::Dialing(AfterDialView::Tunnel { request, secure }),
            EventView::Opened { .. },
        ) => (AttemptView::Requesting { secure }, ActionView::Send { bytes: request }),
        (AttemptView::Dialing(AfterDialView::NoHost), EventView::Opened { .. }) => (
            AttemptView::Closed,
            ActionView::Fail(ConnectError::NoHost),
        ),
        (AttemptView::RestoringDelay { is_proxy }, EventView::Done) => (
            AttemptView::Closed,
            ActionView::Finish { is_proxy },
        ),
        (AttemptView::Requesting { secure }, EventView::Done) => (
            AttemptView::Replying { received: Seq::empty(), secure },
            ActionView::Receive { limit: REPLY_CAPACITY as int },
        ),
        (AttemptView::Replying { received, secure }, EventView::Received(chunk)) => match read_verdict(
            received,
            chunk,
        ) {
            Verdict::Established => begin_handshake(secure),
            Verdict::More => (
                AttemptView::Replying { received: received + chunk, secure },
                ActionView::Receive { limit: REPLY_CAPACITY - (received + chunk).len() },
            ),
            Verdict::Failed(e) => (AttemptView::Closed, ActionView::Fail(e)),
        },
        (AttemptView::Resolving { target, secure }, EventView::Resolved(address)) => (
            AttemptView::SocksDialing { secure },
            ActionView::SocksDial { target: resolved_target(target, address) },
        ),
        (AttemptView::SocksDialing { secure }, EventView::Done) => match secure {
            Some(s) => begin_handshake(s),
            None => (AttemptView::Closed, ActionView::Finish { is_proxy: false }),
        },
        (AttemptView::SocksDialing { .. }, EventView::SocksFailed(reason)) => (
            AttemptView::Closed,
            ActionView::FailSocks { message: "socks connect error: "@ + reason },
        ),
        (AttemptView::Handshaking, EventView::Done) => (
            AttemptView::Closed,
            ActionView::Finish { is_proxy: false },
        ),
        _ => arbitrary(),
    }
}

/// Begins a handshake.
pub(crate) fn handshake<E>(secure: Secure) -> (r: (Attempt, Action<E>))
    ensures
        (r.0@, r.1@) == begin_handshake::<E>(secure@),
{
    let tls = secure.tls;
    match secure.server_name() {
        Ok(name) => (Attempt::Handshaking, Action::Handshake { tls, name }),
        Err(e) => (Attempt::Closed, Action::Fail(e)),
    }
}

impl Attempt {
    /// Takes what the action in hand brought: the attempt afterwards, and what
    /// is to be done next. Nothing is, once the action is to finish or to give up.
    pub fn step<E>(self, event: Event<E>) -> (r: (Attempt, Action<E>))
        requires
            awaits(self@, event@),
        ensures
            (r.0@, r.1@) == next(self@, event@),
    {
        match (self, event) {
            (_, Event::Failed(e)) => (Attempt::Closed, Action::Relay(e)),
            (
                Attempt::Dialing(AfterDial::Deliver { restore_delay, is_proxy }),
                Event::Opened { https },
            ) => {
                if https && restore_delay {
                    (Attempt::RestoringDelay { is_proxy }, Action::RestoreDelay)
                } else {
                    (Attempt::Closed, Action::Finish { is_proxy })
                }
            },
            (Attempt::Dialing(AfterDial::Tunnel { request, secure }), Event::Opened { .. }) => (
                Attempt::Requesting { secure },
                Action::Send { bytes: request },
            ),
            (Attempt::Dialing(AfterDial::NoHost), Event::Opened { .. }) => (
                Attempt::Closed,
                Action::Fail(ConnectError::NoHost),
            ),
            (Attempt::RestoringDelay { is_proxy }, Event::Done) => (
                Attempt::Closed,
                Action::Finish { is_proxy },
            ),
            (Attempt::Requesting { secure }, Event::Done) => {
                let tunnel = Tunnel::new();
                let limit: usize = tunnel.limit();
                (Attempt::Replying { tunnel, secure }, Action::Receive { limit })
            },
            (Attempt::Replying { mut tunnel, secure }, Event::Received(chunk)) => {
                match tunnel.receive(chunk.as_slice()) {
                    Verdict::Established => handshake(secure),
                    Verdict::More => {
                        let limit: usize = tunnel.limit();
                        (Attempt::Replying { tunnel, secure }, Action::Receive { limit })
                    },
                    Verdict::Failed(e) => (Attempt::Closed, Action::Fail(e)),
                }
            },
            (Attempt::Resolving { target, secure }, Event::Resolved(address)) => {
                let target = match address {
                    Some(host) => SocksTarget { host, ..target },
                    None => target,
                };
                (Attempt::SocksDialing { secure }, Action::SocksDial { target })
            },
            (Attempt::SocksDialing { secure }, Event::Done) => match secure {
                Some(s) => handshake(s),
                None => (Attempt::Closed, Action::Finish { is_proxy: false }),
            },
            (Attempt::SocksDialing { .. }, Event::SocksFailed(reason)) => {
                let message = "socks connect error: ".to_owned().concat(reason.as_str());
                (Attempt::Closed, Action::FailSocks { message })
            },
            (Attempt::Handshaking, Event::Done) => (
                Attempt::Closed,
                Action::Finish { is_proxy: false },
            ),
            _ => {
                assert(false);
                vstd::pervasive::unreached()
            },
        }
    }
}

} // verus!
