//! Asking an HTTP proxy for a tunnel: the `CONNECT` request and its reply.
use vstd::prelude::*;
use vstd::utf8::encode_utf8;

use crate::error::ConnectError;
use crate::header::HeaderValue;
use crate::text::{decimal, ends_with, push_bytes, push_decimal, push_text, starts_with};

verus! {

/// How many bytes of a proxy's reply are looked at before giving up.
pub const REPLY_CAPACITY: usize = 8192;

/// One line of a message head.
pub open spec fn line(content: Seq<u8>) -> Seq<u8> {
    content + encode_utf8("\r\n"@)
}

/// A header line, or nothing where there is no value.
pub open spec fn optional_line(name: Seq<char>, value: Option<Seq<u8>>) -> Seq<u8> {
    match value {
        Some(v) => line(encode_utf8(name) + v),
        None => Seq::empty(),
    }
}

/// `host:port`.
pub open spec fn target(host: Seq<char>, port: u16) -> Seq<u8> {
    encode_utf8(host) + encode_utf8(":"@) + decimal(port as nat)
}

/// The request for a tunnel to `host:port`.
pub open spec fn connect_request(
    host: Seq<char>,
    port: u16,
    user_agent: Option<Seq<u8>>,
    auth: Option<Seq<u8>>,
) -> Seq<u8> {
    line(encode_utf8("CONNECT "@) + target(host, port) + encode_utf8(" HTTP/1.1"@))
        + line(encode_utf8("Host: "@) + target(host, port))
        + optional_line("User-Agent: "@, user_agent)
        + optional_line("Proxy-Authorization: "@, auth)
        + line(Seq::empty())
}

/// The bytes of an optional header value.
pub open spec fn value_bytes(value: Option<&HeaderValue>) -> Option<Seq<u8>> {
    match value {
        Some(v) => Some(v@),
        None => None,
    }
}

fn push_optional_line(buf: &mut Vec<u8>, name: &str, value: Option<&HeaderValue>)
    ensures
        final(buf)@ == old(buf)@ + optional_line(name@, value_bytes(value)),
{
    match value {
        Some(v) => {
            push_text(buf, name);
            push_bytes(buf, v.as_bytes());
            push_text(buf, "\r\n");
            assert(buf@ =~= old(buf)@ + optional_line(name@, value_bytes(value)));
        },
        None => {
            assert(buf@ =~= old(buf)@ + optional_line(name@, value_bytes(value)));
        },
    }
}

/// Writes the request for a tunnel to `host:port`.
pub fn write_request(
    host: &str,
    port: u16,
    user_agent: Option<&HeaderValue>,
    auth: Option<&HeaderValue>,
) -> (r: Vec<u8>)
    ensures
        r@ == connect_request(host@, port, value_bytes(user_agent), value_bytes(auth)),
{
    let mut buf: Vec<u8> = Vec::new();
    push_text(&mut buf, "CONNECT ");
    push_text(&mut buf, host);
    push_text(&mut buf, ":");
    push_decimal(&mut buf, port);
    push_text(&mut buf, " HTTP/1.1");
    push_text(&mut buf, "\r\n");
    assert(buf@ =~= line(
        encode_utf8("CONNECT "@) + target(host@, port) + encode_utf8(" HTTP/1.1"@),
    ));
    let ghost first = buf@;
    push_text(&mut buf, "Host: ");
    push_text(&mut buf, host);
    push_text(&mut buf, ":");
    push_decimal(&mut buf, port);
    push_text(&mut buf, "\r\n");
    assert(buf@ =~= first + line(encode_utf8("Host: "@) + target(host@, port)));
    push_optional_line(&mut buf, "User-Agent: ", user_agent);
    push_optional_line(&mut buf, "Proxy-Authorization: ", auth);
    let ghost headers = buf@;
    push_text(&mut buf, "\r\n");
    assert(buf@ =~= headers + line(Seq::empty()));
    buf
}

/// Asks for a tunnel to `host:port`: gives the request to write, and the
/// reader that the proxy's reply is to be handed to.
pub fn tunnel(
    host: &str,
    port: u16,
    user_agent: Option<&HeaderValue>,
    auth: Option<&HeaderValue>,
) -> (r: (Vec<u8>, Tunnel))
    ensures
        r.0@ == connect_request(host@, port, value_bytes(user_agent), value_bytes(auth)),
        r.1@ == Seq::<u8>::empty(),
{
    (write_request(host, port, user_agent, auth), Tunnel::new())
}

/// What the bytes received so far mean.
#[derive(Clone, Copy, Debug, PartialEq, Eq, Structural)]
pub enum Verdict {
    /// The tunnel stands.
    Established,
    /// The reply is a success so far, and not yet complete.
    More,
    /// There is no tunnel.
    Failed(ConnectError),
}

/// Whether a reply begins with a success.
pub open spec fn is_success(received: Seq<u8>) -> bool {
    encode_utf8("HTTP/1.1 200"@).is_prefix_of(received) || encode_utf8(
        "HTTP/1.0 200"@,
    ).is_prefix_of(received)
}

/// Whether a reply ends with the empty line that closes a head.
pub open spec fn is_complete(received: Seq<u8>) -> bool {
    encode_utf8("\r\n\r\n"@).is_suffix_of(received)
}

/// Whether a reply begins with a demand for credentials.
pub open spec fn wants_credentials(received: Seq<u8>) -> bool {
    encode_utf8("HTTP/1.1 407"@).is_prefix_of(received)
}

/// What a reply of which `received` has come means.
pub open spec fn reply_verdict(received: Seq<u8>) -> Verdict {
    if is_success(received) {
        if is_complete(received) {
            Verdict::Established
        } else if received.len() >= REPLY_CAPACITY {
            Verdict::Failed(ConnectError::HeadersTooLong)
        } else {
            Verdict::More
        }
    } else if wants_credentials(received) {
        Verdict::Failed(ConnectError::ProxyAuthRequired)
    } else {
        Verdict::Failed(ConnectError::Unsuccessful)
    }
}

/// What follows from reading `chunk` after `received`; an empty chunk is the
/// end of the stream.
pub open spec fn read_verdict(received: Seq<u8>, chunk: Seq<u8>) -> Verdict {
    if chunk.len() == 0 {
        Verdict::Failed(ConnectError::TunnelEof)
    } else {
        reply_verdict(received + chunk)
    }
}

/// The failure that an end of the stream before the reply is complete is.
pub fn tunnel_eof() -> (e: ConnectError)
    ensures
        e == ConnectError::TunnelEof,
{
    ConnectError::TunnelEof
}

/// The reader of a proxy's reply: what has been received so far.
#[derive(Debug)]
pub struct Tunnel {
    received: Vec<u8>,
}

impl View for Tunnel {
    type V = Seq<u8>;

    closed spec fn view(&self) -> Seq<u8> {
        self.received@
    }
}

impl Tunnel {
    #[verifier::type_invariant]
    spec fn fits(self) -> bool {
        self.received@.len() <= REPLY_CAPACITY
    }

    /// A reader that has received nothing.
    pub fn new() -> (r: Tunnel)
        ensures
            r@ == Seq::<u8>::empty(),
    {
        Tunnel { received: Vec::new() }
    }

    /// How many bytes the next read may bring at most. There is always room
    /// for one while the verdict is that more is to come.
    pub fn limit(&self) -> (n: usize)
        ensures
            n == REPLY_CAPACITY - self@.len(),
    {
        proof {
            use_type_invariant(self);
        }
        REPLY_CAPACITY - self.received.len()
    }

    /// Takes what one read brought. Nothing is the end of the stream.
    pub fn receive(&mut self, chunk: &[u8]) -> (v: Verdict)
        requires
            old(self)@.len() + chunk@.len() <= REPLY_CAPACITY,
        ensures
            final(self)@ == old(self)@ + chunk@,
            v == read_verdict(old(self)@, chunk@),
    {
        let mut received: Vec<u8> = Vec::new();
        std::mem::swap(&mut received, &mut self.received);
        push_bytes(&mut received, chunk);
        self.received = received;
        if chunk.len() == 0 {
            return Verdict::Failed(tunnel_eof());
        }
        let recvd = self.received.as_slice();
        if starts_with(recvd, "HTTP/1.1 200".as_bytes()) || starts_with(
            recvd,
            "HTTP/1.0 200".as_bytes(),
        ) {
            if ends_with(recvd, "\r\n\r\n".as_bytes()) {
                return Verdict::Established;
            }
            if recvd.len() == REPLY_CAPACITY {
                return Verdict::Failed(ConnectError::HeadersTooLong);
            }
            Verdict::More
        } else if starts_with(recvd, "HTTP/1.1 407".as_bytes()) {
            Verdict::Failed(ConnectError::ProxyAuthRequired)
        } else {
            Verdict::Failed(ConnectError::Unsuccessful)
        }
    }
}

} // verus!
