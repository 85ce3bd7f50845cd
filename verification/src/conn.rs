//! Connections that have been made, and what is known of them.
use vstd::prelude::*;
use vstd::utf8::{encode_utf8, is_ascii_chars_encode_utf8};

use crate::text::starts_with;

verus! {

/// What is known of a connection.
#[derive(Clone, Copy, Debug, PartialEq, Eq, Structural)]
pub struct Connected {
    /// Whether it leads to a proxy that forwards requests.
    pub is_proxied: bool,
    /// Whether HTTP/2 was agreed on.
    pub negotiated_h2: bool,
}

/// A connection. `is_proxy` means that it leads to a plain text HTTP proxy. It
/// tells whether the URI of a request is written in
/// * origin-form (`GET /just/a/path HTTP/1.1`), when `is_proxy == false`, or
/// * absolute-form (`GET http://foo.bar/and/a/path HTTP/1.1`), otherwise.
#[derive(Debug)]
pub struct Conn<T> {
    pub inner: T,
    pub is_proxy: bool,
}

impl<T> Conn<T> {
    /// What is known of the connection, given what is known of the inner one.
    pub fn connected(&self, inner: Connected) -> (r: Connected)
        ensures
            r == (Connected { is_proxied: self.is_proxy, ..inner }),
    {
        Connected { is_proxied: self.is_proxy, negotiated_h2: inner.negotiated_h2 }
    }
}

/// Whether a protocol is the one that ALPN calls HTTP/2.
pub open spec fn is_h2(protocol: Seq<u8>) -> bool {
    protocol == encode_utf8("h2"@)
}

/// What is known of a connection over TLS, given what is known of the one that
/// carries it and the protocol that was agreed on by ALPN, if any.
pub fn tls_connected(alpn_protocol: Option<&[u8]>, carrier: Connected) -> (r: Connected)
    ensures
        r == (if alpn_protocol matches Some(protocol) && is_h2(protocol@) {
            Connected { negotiated_h2: true, ..carrier }
        } else {
            carrier
        }),
{
    match alpn_protocol {
        Some(protocol) => {
            let h2 = "h2".as_bytes();
            if protocol.len() == h2.len() && starts_with(protocol, h2) {
                assert(protocol@ =~= h2@) by {
                    assert(protocol@.subrange(0, h2@.len() as int) == h2@);
                }
                Connected { is_proxied: carrier.is_proxied, negotiated_h2: true }
            } else {
                assert(protocol@.len() == h2@.len() ==> protocol@.subrange(0, h2@.len() as int)
                    =~= protocol@);
                carrier
            }
        },
        None => carrier,
    }
}

/// Of a delivered connection all is known that is known of the one inside, but that
/// its own mark says whether it leads to a proxy.
pub proof fn marks_are_those_of_the_outer_connection<T>(
    conn: &Conn<T>,
    inner: Connected,
    r: Connected,
)
    requires
        call_ensures(Conn::<T>::connected, (conn, inner), r),
    ensures
        r.is_proxied == conn.is_proxy,
        r.negotiated_h2 == inner.negotiated_h2,
{
}

/// A connection over TLS is one for HTTP/2 if exactly the bytes of `h2` were agreed on
/// or the carrying one is; it leads to a proxy if that one does.
pub proof fn http2_is_told_by_two_bytes(
    alpn_protocol: Option<&[u8]>,
    carrier: Connected,
    r: Connected,
)
    requires
        call_ensures(tls_connected, (alpn_protocol, carrier), r),
    ensures
        r.is_proxied == carrier.is_proxied,
        r.negotiated_h2 == (carrier.negotiated_h2 || (alpn_protocol matches Some(p) && p@
            == seq![104u8, 50])),
{
    reveal_strlit("h2");
    is_ascii_chars_encode_utf8("h2"@);
    assert(encode_utf8("h2"@) =~= seq![104u8, 50]);
}

} // verus!
