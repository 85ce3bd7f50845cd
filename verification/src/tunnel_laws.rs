//! What holds of every tunnel request and of every way a reply can arrive.
use vstd::prelude::*;
use vstd::utf8::{
    encode_scalar, encode_utf8, encode_utf8_decode_utf8, has_width_1_encoding,
    is_ascii_chars_encode_utf8,
};

use crate::error::ConnectError;
use crate::header::{is_header_value, HeaderValue};
use crate::text::{decimal, push_decimal};
use crate::tunnel::{
    connect_request, is_complete, is_success, line, optional_line, read_verdict, target,
    tunnel, tunnel_eof, wants_credentials, write_request, Tunnel, Verdict, REPLY_CAPACITY,
};

verus! {

/// Whether bytes hold neither a carriage return nor a line feed.
pub open spec fn is_unbroken(bytes: Seq<u8>) -> bool {
    forall|i: int| 0 <= i < bytes.len() ==> (#[trigger] bytes[i]) != 13 && bytes[i] != 10
}

/// Whether a text holds neither a carriage return nor a line feed.
pub open spec fn is_unbroken_text(text: Seq<char>) -> bool {
    forall|i: int| 0 <= i < text.len() ==> (#[trigger] text[i]) != '\r' && text[i] != '\n'
}

/// Whether an optional header value is one.
pub open spec fn is_optional_header_value(value: Option<Seq<u8>>) -> bool {
    value matches Some(v) ==> is_header_value(v)
}

/// The lines of a head, one after the other.
pub open spec fn head(lines: Seq<Seq<u8>>) -> Seq<u8>
    decreases lines.len(),
{
    if lines.len() == 0 {
        Seq::empty()
    } else {
        line(lines[0]) + head(lines.drop_first())
    }
}

/// The lines of a tunnel request.
pub open spec fn request_lines(
    host: Seq<char>,
    port: u16,
    user_agent: Option<Seq<u8>>,
    auth: Option<Seq<u8>>,
) -> Seq<Seq<u8>> {
    seq![
        encode_utf8("CONNECT "@) + target(host, port) + encode_utf8(" HTTP/1.1"@),
        encode_utf8("Host: "@) + target(host, port),
    ] + (match user_agent {
        Some(v) => seq![encode_utf8("User-Agent: "@) + v],
        None => Seq::empty(),
    }) + (match auth {
        Some(v) => seq![encode_utf8("Proxy-Authorization: "@) + v],
        None => Seq::empty(),
    })
}

/// Whether the empty line that ends a head stands at `i`.
pub open spec fn head_ends_at(bytes: Seq<u8>, i: int) -> bool {
    0 <= i && i + 4 <= bytes.len() && bytes.subrange(i, i + 4) == encode_utf8("\r\n\r\n"@)
}

/// The request for a tunnel is a single message head, whatever the host (if it
/// holds no line break) and the header values are: it is made of the lines of
/// [`request_lines`], none of which holds a line break, and the empty line that
/// ends a head stands at its very end and nowhere before. So nothing that is
/// put into the request can add a line to it or end it early.
pub proof fn request_is_one_head(
    host: Seq<char>,
    port: u16,
    user_agent: Option<Seq<u8>>,
    auth: Option<Seq<u8>>,
)
    requires
        is_unbroken_text(host),
        is_optional_header_value(user_agent),
        is_optional_header_value(auth),
    ensures
        ({
            let lines = request_lines(host, port, user_agent, auth);
            let request = connect_request(host, port, user_agent, auth);
            &&& request == head(lines) + line(Seq::empty())
            &&& forall|k: int| 0 <= k < lines.len() ==> is_unbroken(#[trigger] lines[k])
            &&& is_complete(request)
            &&& forall|i: int| #[trigger]
                head_ends_at(request, i) ==> i + 4 == request.len()
        }),
{
    let lines = request_lines(host, port, user_agent, auth);
    let request = connect_request(host, port, user_agent, auth);
    lines_are_unbroken(host, port, user_agent, auth);
    head_of_lines(host, port, user_agent, auth);
    head_end_is_unique(lines);
    assert(request == head(lines) + line(Seq::empty()));
    head_is_complete(lines);
}

/// The request tells all that went into it: two requests that are equal ask for
/// the same host and port, and carry the same header values. (A host or a value
/// that holds a line break could pass for more than it is.)
pub proof fn request_is_injective(
    host1: Seq<char>,
    port1: u16,
    user_agent1: Option<Seq<u8>>,
    auth1: Option<Seq<u8>>,
    host2: Seq<char>,
    port2: u16,
    user_agent2: Option<Seq<u8>>,
    auth2: Option<Seq<u8>>,
)
    requires
        is_unbroken_text(host1),
        is_optional_header_value(user_agent1),
        is_optional_header_value(auth1),
        is_unbroken_text(host2),
        is_optional_header_value(user_agent2),
        is_optional_header_value(auth2),
        connect_request(host1, port1, user_agent1, auth1) == connect_request(
            host2,
            port2,
            user_agent2,
            auth2,
        ),
    ensures
        host1 == host2,
        port1 == port2,
        user_agent1 == user_agent2,
        auth1 == auth2,
{
    let a = request_lines(host1, port1, user_agent1, auth1);
    let b = request_lines(host2, port2, user_agent2, auth2);
    head_of_lines(host1, port1, user_agent1, auth1);
    head_of_lines(host2, port2, user_agent2, auth2);
    lines_are_unbroken(host1, port1, user_agent1, auth1);
    lines_are_unbroken(host2, port2, user_agent2, auth2);
    head_is_injective(a, b);
    let pre = encode_utf8("CONNECT "@);
    let post = encode_utf8(" HTTP/1.1"@);
    let t1 = target(host1, port1);
    let t2 = target(host2, port2);
    assert(a[0] == pre + t1 + post);
    assert(b[0] == pre + t2 + post);
    assert(t1 =~= a[0].subrange(pre.len() as int, a[0].len() - post.len()));
    assert(t2 =~= b[0].subrange(pre.len() as int, b[0].len() - post.len()));
    target_is_injective(host1, port1, host2, port2);
    let agent = encode_utf8("User-Agent: "@);
    let credentials = encode_utf8("Proxy-Authorization: "@);
    names_differ();
    if a.len() > 2 {
        let x = a[2];
        assert(x == b[2]);
        assert(user_agent1 matches Some(v) ==> x == agent + v && v =~= x.skip(agent.len() as int));
        assert(user_agent2 matches Some(v) ==> x == agent + v && v =~= x.skip(agent.len() as int));
        assert(user_agent1 is None ==> x[0] == credentials[0]);
        assert(user_agent2 is None ==> x[0] == credentials[0]);
        assert(user_agent1 is Some ==> x[0] == agent[0]);
        assert(user_agent2 is Some ==> x[0] == agent[0]);
        let y = a.last();
        assert(y == b.last());
        assert(auth1 matches Some(v) ==> y == credentials + v && v =~= y.skip(
            credentials.len() as int,
        ));
        assert(auth2 matches Some(v) ==> y == credentials + v && v =~= y.skip(
            credentials.len() as int,
        ));
    }
}

/// The two optional lines begin differently.
proof fn names_differ()
    ensures
        encode_utf8("User-Agent: "@).len() > 0,
        encode_utf8("Proxy-Authorization: "@).len() > 0,
        encode_utf8("User-Agent: "@)[0] != encode_utf8("Proxy-Authorization: "@)[0],
{
    reveal_strlit("User-Agent: ");
    reveal_strlit("Proxy-Authorization: ");
    is_ascii_chars_encode_utf8("User-Agent: "@);
    is_ascii_chars_encode_utf8("Proxy-Authorization: "@);
    assert("User-Agent: "@[0] == 'U');
    assert("Proxy-Authorization: "@[0] == 'P');
}

/// No line of a request is empty or holds a break.
proof fn lines_are_unbroken(
    host: Seq<char>,
    port: u16,
    user_agent: Option<Seq<u8>>,
    auth: Option<Seq<u8>>,
)
    requires
        is_unbroken_text(host),
        is_optional_header_value(user_agent),
        is_optional_header_value(auth),
    ensures
        forall|k: int|
            0 <= k < request_lines(host, port, user_agent, auth).len() ==> is_unbroken(
                #[trigger] request_lines(host, port, user_agent, auth)[k],
            ) && request_lines(host, port, user_agent, auth)[k].len() > 0,
{
    literals();
    unbroken_encoding(host);
    unbroken_digits(port as nat);
}

/// Where no line is empty or holds a break, a head tells its lines.
proof fn head_is_injective(a: Seq<Seq<u8>>, b: Seq<Seq<u8>>)
    requires
        forall|k: int| 0 <= k < a.len() ==> is_unbroken(#[trigger] a[k]) && a[k].len() > 0,
        forall|k: int| 0 <= k < b.len() ==> is_unbroken(#[trigger] b[k]) && b[k].len() > 0,
        head(a) + line(Seq::empty()) == head(b) + line(Seq::empty()),
    ensures
        a == b,
    decreases a.len(),
{
    literals();
    let end = line(Seq::empty());
    assert(end =~= seq![13u8, 10u8]);
    let x = head(a) + end;
    let y = head(b) + end;
    if a.len() == 0 {
        assert(x =~= end);
        if b.len() > 0 {
            assert(y[0] == b[0][0]);
        }
        assert(a =~= b);
    } else if b.len() == 0 {
        assert(y =~= end);
        assert(x[0] == a[0][0]);
    } else {
        let rest_a = head(a.drop_first()) + end;
        let rest_b = head(b.drop_first()) + end;
        assert(x =~= a[0] + seq![13u8, 10u8] + rest_a);
        assert(y =~= b[0] + seq![13u8, 10u8] + rest_b);
        let n = a[0].len() as int;
        let m = b[0].len() as int;
        assert(x[n] == 13);
        assert(y[m] == 13);
        if n < m {
            assert(y[n] == b[0][n]);
        } else if m < n {
            assert(x[m] == a[0][m]);
        }
        assert(a[0] =~= x.take(n));
        assert(b[0] =~= y.take(n));
        assert(rest_a =~= x.skip(n + 2));
        assert(rest_b =~= y.skip(n + 2));
        assert forall|k: int| 0 <= k < a.drop_first().len() implies is_unbroken(
            #[trigger] a.drop_first()[k],
        ) && a.drop_first()[k].len() > 0 by {
            assert(a.drop_first()[k] == a[k + 1]);
        }
        assert forall|k: int| 0 <= k < b.drop_first().len() implies is_unbroken(
            #[trigger] b.drop_first()[k],
        ) && b.drop_first()[k].len() > 0 by {
            assert(b.drop_first()[k] == b[k + 1]);
        }
        head_is_injective(a.drop_first(), b.drop_first());
        assert(a =~= seq![a[0]] + a.drop_first());
        assert(b =~= seq![b[0]] + b.drop_first());
    }
}

/// `host:port` tells the host and the port: the last colon is the one between.
proof fn target_is_injective(host1: Seq<char>, port1: u16, host2: Seq<char>, port2: u16)
    requires
        target(host1, port1) == target(host2, port2),
    ensures
        host1 == host2,
        port1 == port2,
{
    reveal_strlit(":");
    is_ascii_chars_encode_utf8(":"@);
    assert(encode_utf8(":"@) =~= seq![58u8]);
    decimal_is_digits(port1 as nat);
    decimal_is_digits(port2 as nat);
    last_colon(
        encode_utf8(host1),
        decimal(port1 as nat),
        encode_utf8(host2),
        decimal(port2 as nat),
    );
    encode_utf8_decode_utf8(host1);
    encode_utf8_decode_utf8(host2);
    decimal_is_injective(port1 as nat, port2 as nat);
}

/// Where no colon follows, a colon splits bytes in one way only.
proof fn last_colon(h1: Seq<u8>, d1: Seq<u8>, h2: Seq<u8>, d2: Seq<u8>)
    requires
        h1 + seq![58u8] + d1 == h2 + seq![58u8] + d2,
        forall|i: int| 0 <= i < d1.len() ==> #[trigger] d1[i] != 58,
        forall|i: int| 0 <= i < d2.len() ==> #[trigger] d2[i] != 58,
    ensures
        h1 == h2,
        d1 == d2,
{
    let s1 = h1 + seq![58u8] + d1;
    let s2 = h2 + seq![58u8] + d2;
    assert(s1.len() == h1.len() + 1 + d1.len());
    assert(s2.len() == h2.len() + 1 + d2.len());
    let i = h1.len() as int;
    let j = h2.len() as int;
    assert(s1[i] == 58);
    assert(s2[j] == 58);
    if i < j {
        let k = j - i - 1;
        assert(0 <= k < d1.len());
        assert(s1[i + 1 + k] == d1[k]);
        assert(d1[k] != 58);
    } else if j < i {
        let k = i - j - 1;
        assert(0 <= k < d2.len());
        assert(s2[j + 1 + k] == d2[k]);
        assert(d2[k] != 58);
    }
    assert(h1 =~= s1.take(i));
    assert(h2 =~= s1.take(i));
    assert(d1 =~= s1.skip(i + 1));
    assert(d2 =~= s1.skip(i + 1));
}

proof fn decimal_is_digits(n: nat)
    ensures
        decimal(n).len() > 0,
        forall|i: int| 0 <= i < decimal(n).len() ==> 48 <= #[trigger] decimal(n)[i] <= 57,
    decreases n,
{
    if n >= 10 {
        decimal_is_digits(n / 10);
    }
}

/// Different numbers are written differently.
proof fn decimal_is_injective(a: nat, b: nat)
    requires
        decimal(a) == decimal(b),
    ensures
        a == b,
    decreases a,
{
    if a >= 10 {
        decimal_is_digits(a / 10);
        assert(decimal(a).drop_last() =~= decimal(a / 10));
    }
    if b >= 10 {
        decimal_is_digits(b / 10);
        assert(decimal(b).drop_last() =~= decimal(b / 10));
    }
    assert(decimal(a).last() == (48 + a % 10) as u8);
    assert(decimal(b).last() == (48 + b % 10) as u8);
    if a >= 10 && b >= 10 {
        decimal_is_injective(a / 10, b / 10);
    }
}

/// What the literals of a request are in bytes.
proof fn literals()
    ensures
        encode_utf8("\r\n"@) == seq![13u8, 10u8],
        encode_utf8("\r\n\r\n"@) == seq![13u8, 10u8, 13u8, 10u8],
        is_unbroken(encode_utf8("CONNECT "@)),
        is_unbroken(encode_utf8(" HTTP/1.1"@)),
        is_unbroken(encode_utf8("Host: "@)),
        is_unbroken(encode_utf8("User-Agent: "@)),
        is_unbroken(encode_utf8("Proxy-Authorization: "@)),
        is_unbroken(encode_utf8(":"@)),
        encode_utf8("CONNECT "@).len() > 0,
        encode_utf8("Host: "@).len() > 0,
        encode_utf8("User-Agent: "@).len() > 0,
        encode_utf8("Proxy-Authorization: "@).len() > 0,
{
    reveal_strlit("\r\n");
    reveal_strlit("\r\n\r\n");
    reveal_strlit("CONNECT ");
    reveal_strlit(" HTTP/1.1");
    reveal_strlit("Host: ");
    reveal_strlit("User-Agent: ");
    reveal_strlit("Proxy-Authorization: ");
    reveal_strlit(":");
    is_ascii_chars_encode_utf8("\r\n"@);
    is_ascii_chars_encode_utf8("\r\n\r\n"@);
    is_ascii_chars_encode_utf8("CONNECT "@);
    is_ascii_chars_encode_utf8(" HTTP/1.1"@);
    is_ascii_chars_encode_utf8("Host: "@);
    is_ascii_chars_encode_utf8("User-Agent: "@);
    is_ascii_chars_encode_utf8("Proxy-Authorization: "@);
    is_ascii_chars_encode_utf8(":"@);
    assert(encode_utf8("\r\n"@) =~= seq![13u8, 10u8]);
    assert(encode_utf8("\r\n\r\n"@) =~= seq![13u8, 10u8, 13u8, 10u8]);
}

/// A text without a line break has none in UTF-8 either.
proof fn unbroken_encoding(text: Seq<char>)
    requires
        is_unbroken_text(text),
    ensures
        is_unbroken(encode_utf8(text)),
    decreases text.len(),
{
    if text.len() > 0 {
        let rest = text.drop_first();
        assert forall|i: int| 0 <= i < rest.len() implies (#[trigger] rest[i]) != '\r' && rest[i]
            != '\n' by {
            assert(rest[i] == text[i + 1]);
        }
        unbroken_encoding(rest);
        unbroken_scalar(text[0]);
    }
}

proof fn unbroken_scalar(c: char)
    requires
        c != '\r',
        c != '\n',
    ensures
        is_unbroken(encode_scalar(c as u32)),
{
    let v = c as u32;
    if has_width_1_encoding(v) {
        assert((v & 0x7F) as u8 == v) by (bit_vector)
            requires
                v <= 0x7F,
        ;
    } else {
        assert(0xC0u8 | ((v >> 6) & 0x1F) as u8 >= 0x80) by (bit_vector);
        assert(0xE0u8 | ((v >> 12) & 0x0F) as u8 >= 0x80) by (bit_vector);
        assert(0xF0u8 | ((v >> 18) & 0x7) as u8 >= 0x80) by (bit_vector);
        assert(0x80u8 | (v & 0x3F) as u8 >= 0x80) by (bit_vector);
        assert(0x80u8 | ((v >> 6) & 0x3F) as u8 >= 0x80) by (bit_vector);
        assert(0x80u8 | ((v >> 12) & 0x3F) as u8 >= 0x80) by (bit_vector);
    }
}

proof fn unbroken_digits(n: nat)
    ensures
        is_unbroken(decimal(n)),
    decreases n,
{
    if n >= 10 {
        unbroken_digits(n / 10);
    }
}

/// The request is its lines, and then an empty one.
proof fn head_of_lines(
    host: Seq<char>,
    port: u16,
    user_agent: Option<Seq<u8>>,
    auth: Option<Seq<u8>>,
)
    ensures
        connect_request(host, port, user_agent, auth) == head(
            request_lines(host, port, user_agent, auth),
        ) + line(Seq::empty()),
{
    let first = encode_utf8("CONNECT "@) + target(host, port) + encode_utf8(" HTTP/1.1"@);
    let second = encode_utf8("Host: "@) + target(host, port);
    let agent: Seq<Seq<u8>> = match user_agent {
        Some(v) => seq![encode_utf8("User-Agent: "@) + v],
        None => Seq::empty(),
    };
    let credentials: Seq<Seq<u8>> = match auth {
        Some(v) => seq![encode_utf8("Proxy-Authorization: "@) + v],
        None => Seq::empty(),
    };
    let none: Seq<Seq<u8>> = Seq::empty();
    let lines = request_lines(host, port, user_agent, auth);
    head_step(lines, first, seq![second] + agent + credentials);
    head_step(seq![second] + agent + credentials, second, agent + credentials);
    match user_agent {
        Some(v) => {
            head_step(agent + credentials, encode_utf8("User-Agent: "@) + v, credentials);
        },
        None => {
            assert(agent + credentials =~= credentials);
        },
    }
    match auth {
        Some(v) => {
            head_step(credentials, encode_utf8("Proxy-Authorization: "@) + v, none);
        },
        None => {},
    }
    assert(head(none) =~= Seq::<u8>::empty());
    assert(head(credentials) =~= optional_line("Proxy-Authorization: "@, auth));
    assert(head(agent + credentials) =~= optional_line("User-Agent: "@, user_agent) + optional_line(
        "Proxy-Authorization: "@,
        auth,
    ));
    assert(connect_request(host, port, user_agent, auth) =~= head(lines) + line(Seq::empty()));
}

proof fn head_step(lines: Seq<Seq<u8>>, first: Seq<u8>, rest: Seq<Seq<u8>>)
    requires
        lines =~= seq![first] + rest,
    ensures
        head(lines) == line(first) + head(rest),
{
    assert(lines.drop_first() =~= rest);
}

/// A head and its empty line end with two line breaks.
proof fn head_is_complete(lines: Seq<Seq<u8>>)
    requires
        lines.len() > 0,
    ensures
        is_complete(head(lines) + line(Seq::empty())),
    decreases lines.len(),
{
    literals();
    let all = head(lines) + line(Seq::empty());
    let rest = lines.drop_first();
    if rest.len() > 0 {
        head_is_complete(rest);
        let inner = head(rest) + line(Seq::empty());
        assert(all =~= line(lines[0]) + inner);
        assert(inner.subrange(inner.len() - 4, inner.len() as int) =~= all.subrange(
            all.len() - 4,
            all.len() as int,
        ));
    } else {
        assert(head(rest) =~= Seq::<u8>::empty());
        assert(all =~= lines[0] + seq![13u8, 10u8, 13u8, 10u8]);
        assert(all.subrange(all.len() - 4, all.len() as int) =~= seq![13u8, 10u8, 13u8, 10u8]);
    }
}

/// Where no line is empty or holds a break, a head ends only at its end.
proof fn head_end_is_unique(lines: Seq<Seq<u8>>)
    requires
        forall|k: int|
            0 <= k < lines.len() ==> is_unbroken(#[trigger] lines[k]) && lines[k].len() > 0,
    ensures
        forall|i: int| #[trigger]
            head_ends_at(head(lines) + line(Seq::empty()), i) ==> i + 4 == (head(lines) + line(
                Seq::empty(),
            )).len(),
    decreases lines.len(),
{
    literals();
    let all = head(lines) + line(Seq::empty());
    if lines.len() > 0 {
        let rest = lines.drop_first();
        assert forall|k: int| 0 <= k < rest.len() implies is_unbroken(#[trigger] rest[k])
            && rest[k].len() > 0 by {
            assert(rest[k] == lines[k + 1]);
        }
        head_end_is_unique(rest);
        let inner = head(rest) + line(Seq::empty());
        let n = lines[0].len();
        assert(all =~= lines[0] + seq![13u8, 10u8] + inner);
        assert forall|i: int| #[trigger] head_ends_at(all, i) implies i + 4 == all.len() by {
            let found = all.subrange(i, i + 4);
            assert(found[0] == all[i]);
            assert(found[2] == all[i + 2]);
            if i < n {
                assert(all[i] == lines[0][i]);
            } else if i == n {
                assert(all[i + 2] == inner[0]);
                if rest.len() > 0 {
                    assert(inner[0] == rest[0][0]);
                } else {
                    assert(inner =~= seq![13u8, 10u8]);
                }
            } else if i == n + 1 {
                assert(all[i] == 10);
            } else {
                let j = i - n - 2;
                assert(inner.subrange(j, j + 4) =~= found);
                assert(head_ends_at(inner, j));
            }
        }
    } else {
        assert(all =~= seq![13u8, 10u8]);
    }
}

/// A request for a tunnel, told by its bytes: `CONNECT` with the host, a colon and the
/// port in digits, and the version; the same host and port after `Host`; a line each
/// for the name of the client and for the credentials, if there are any; and the
/// empty line. The request that comes with a reader is the same.
pub proof fn request_by_bytes(
    host: &str,
    port: u16,
    user_agent: Option<&HeaderValue>,
    auth: Option<&HeaderValue>,
    digits: &mut Vec<u8>,
    r: Vec<u8>,
    with_reader: (Vec<u8>, Tunnel),
)
    requires
        call_ensures(write_request, (host, port, user_agent, auth), r),
        call_ensures(tunnel, (host, port, user_agent, auth), with_reader),
        old(digits)@.len() == 0,
        call_ensures(push_decimal, (digits, port), ()),
    ensures
        ({
            let target = encode_utf8(host@) + seq![58u8] + final(digits)@;
            let connect = seq![67u8, 79, 78, 78, 69, 67, 84, 32] + target + seq![32u8, 72, 84, 84, 80, 47, 49, 46, 49, 13, 10];
            let named = seq![72u8, 111, 115, 116, 58, 32] + target + seq![13u8, 10];
            let agent = match user_agent {
                Some(value) => seq![85u8, 115, 101, 114, 45, 65, 103, 101, 110, 116, 58, 32] + value@ + seq![13u8, 10],
                None => Seq::empty(),
            };
            let credentials = match auth {
                Some(value) => seq![80u8, 114, 111, 120, 121, 45, 65, 117, 116, 104, 111, 114, 105, 122, 97, 116, 105, 111, 110, 58, 32] + value@ + seq![13u8, 10],
                None => Seq::empty(),
            };
            r@ == connect + named + agent + credentials + seq![13u8, 10]
        }),
        with_reader.0@ == r@,
        with_reader.1@.len() == 0,
{
    request_literals();
    literals();
    let digits = decimal(port as nat);
    assert(Seq::<u8>::empty() + digits =~= digits);
    let target = encode_utf8(host@) + seq![58u8] + digits;
    let connect = seq![67u8, 79, 78, 78, 69, 67, 84, 32] + target + seq![32u8, 72, 84, 84, 80, 47, 49, 46, 49, 13, 10];
    let named = seq![72u8, 111, 115, 116, 58, 32] + target + seq![13u8, 10];
    let agent = match user_agent {
        Some(value) => seq![85u8, 115, 101, 114, 45, 65, 103, 101, 110, 116, 58, 32] + value@ + seq![13u8, 10],
        None => Seq::empty(),
    };
    let credentials = match auth {
        Some(value) => seq![80u8, 114, 111, 120, 121, 45, 65, 117, 116, 104, 111, 114, 105, 122, 97, 116, 105, 111, 110, 58, 32] + value@ + seq![13u8, 10],
        None => Seq::empty(),
    };
    assert(r@ =~= connect + named + agent + credentials + seq![13u8, 10]);
}

/// What the literals of a request are in bytes.
proof fn request_literals()
    ensures
        encode_utf8("CONNECT "@) == seq![67u8, 79, 78, 78, 69, 67, 84, 32],
        encode_utf8(" HTTP/1.1"@) == seq![32u8, 72, 84, 84, 80, 47, 49, 46, 49],
        encode_utf8("Host: "@) == seq![72u8, 111, 115, 116, 58, 32],
        encode_utf8("User-Agent: "@) == seq![85u8, 115, 101, 114, 45, 65, 103, 101, 110, 116, 58, 32],
        encode_utf8("Proxy-Authorization: "@) == seq![80u8, 114, 111, 120, 121, 45, 65, 117, 116, 104, 111, 114, 105, 122, 97, 116, 105, 111, 110, 58, 32],
        encode_utf8(":"@) == seq![58u8],
{
    reveal_strlit("CONNECT ");
    is_ascii_chars_encode_utf8("CONNECT "@);
    assert(encode_utf8("CONNECT "@) =~= seq![67u8, 79, 78, 78, 69, 67, 84, 32]);
    reveal_strlit(" HTTP/1.1");
    is_ascii_chars_encode_utf8(" HTTP/1.1"@);
    assert(encode_utf8(" HTTP/1.1"@) =~= seq![32u8, 72, 84, 84, 80, 47, 49, 46, 49]);
    reveal_strlit("Host: ");
    is_ascii_chars_encode_utf8("Host: "@);
    assert(encode_utf8("Host: "@) =~= seq![72u8, 111, 115, 116, 58, 32]);
    reveal_strlit("User-Agent: ");
    is_ascii_chars_encode_utf8("User-Agent: "@);
    assert(encode_utf8("User-Agent: "@) =~= seq![85u8, 115, 101, 114, 45, 65, 103, 101, 110, 116, 58, 32]);
    reveal_strlit("Proxy-Authorization: ");
    is_ascii_chars_encode_utf8("Proxy-Authorization: "@);
    assert(encode_utf8("Proxy-Authorization: "@) =~= seq![80u8, 114, 111, 120, 121, 45, 65, 117, 116, 104, 111, 114, 105, 122, 97, 116, 105, 111, 110, 58, 32]);
    reveal_strlit(":");
    is_ascii_chars_encode_utf8(":"@);
    assert(encode_utf8(":"@) =~= seq![58u8]);
}

/// The end of a stream before a reply is complete is one failure.
pub proof fn early_end_is_told(e: ConnectError)
    requires
        call_ensures(tunnel_eof, (), e),
    ensures
        e == ConnectError::TunnelEof,
{
}

/// What a read of `chunk` after `received` means, told by the bytes themselves: what
/// has come by then has to begin with the twelve bytes of `HTTP/1.1 200` or of
/// `HTTP/1.0 200`, or the tunnel fails, in the one way for those of `HTTP/1.1 407`
/// and in the other for any others. A success stands once two line breaks end it,
/// and fails if it fills 8192 bytes without. No bytes at all are the end.
pub proof fn verdict_by_bytes(received: Seq<u8>, chunk: Seq<u8>)
    ensures
        ({
            let all = received + chunk;
            let begins = |status: Seq<u8>| all.len() >= 12 && all.take(12) == status;
            let granted = begins(seq![72u8, 84, 84, 80, 47, 49, 46, 49, 32, 50, 48, 48])
                || begins(seq![72u8, 84, 84, 80, 47, 49, 46, 48, 32, 50, 48, 48]);
            let ended = all.len() >= 4 && all.skip(all.len() - 4) == seq![13u8, 10, 13, 10];
            read_verdict(received, chunk) == if chunk.len() == 0 {
                Verdict::Failed(ConnectError::TunnelEof)
            } else if granted {
                if ended {
                    Verdict::Established
                } else if all.len() >= 8192 {
                    Verdict::Failed(ConnectError::HeadersTooLong)
                } else {
                    Verdict::More
                }
            } else if begins(seq![72u8, 84, 84, 80, 47, 49, 46, 49, 32, 52, 48, 55]) {
                Verdict::Failed(ConnectError::ProxyAuthRequired)
            } else {
                Verdict::Failed(ConnectError::Unsuccessful)
            }
        }),
{
    let all = received + chunk;
    status_bytes();
    literals();
    if all.len() >= 12 {
        assert(all.take(12) =~= all.subrange(0, 12));
    }
    if all.len() >= 4 {
        assert(all.skip(all.len() - 4) =~= all.subrange(all.len() - 4, all.len() as int));
    }
}

/// A reply whose status is not 200 never makes a tunnel, and is not read on, however
/// much of it has come: the three bytes after the version are 50, 48 and 48, or the
/// attempt at a tunnel has failed.
pub proof fn other_statuses_fail(received: Seq<u8>, chunk: Seq<u8>)
    requires
        ({
            let all = received + chunk;
            all.len() < 12 || all[9] != 50 || all[10] != 48 || all[11] != 48
        }),
    ensures
        read_verdict(received, chunk) is Failed,
{
    let all = received + chunk;
    verdict_by_bytes(received, chunk);
    if all.len() >= 12 {
        let status = all.take(12);
        assert(status[9] == all[9] && status[10] == all[10] && status[11] == all[11]);
    }
}

/// The reader of a reply goes by all the bytes that it was given: it keeps them, and
/// its verdict is the one by the bytes. It says what room is left in 8192 bytes.
pub proof fn readers_go_by_the_bytes(
    tunnel: &mut Tunnel,
    chunk: &[u8],
    verdict: Verdict,
    fresh: Tunnel,
    other: &Tunnel,
    limit: usize,
)
    requires
        call_ensures(Tunnel::receive, (tunnel, chunk), verdict),
        call_ensures(Tunnel::new, (), fresh),
        call_ensures(Tunnel::limit, (other,), limit),
    ensures
        final(tunnel)@ == old(tunnel)@ + chunk@,
        fresh@.len() == 0,
        limit == 8192 - other@.len(),
        ({
            let all = old(tunnel)@ + chunk@;
            let begins = |status: Seq<u8>| all.len() >= 12 && all.take(12) == status;
            let granted = begins(seq![72u8, 84, 84, 80, 47, 49, 46, 49, 32, 50, 48, 48])
                || begins(seq![72u8, 84, 84, 80, 47, 49, 46, 48, 32, 50, 48, 48]);
            let ended = all.len() >= 4 && all.skip(all.len() - 4) == seq![13u8, 10, 13, 10];
            match verdict {
                Verdict::Established => chunk@.len() > 0 && granted && ended,
                Verdict::More => chunk@.len() > 0 && granted && !ended && all.len() < 8192,
                Verdict::Failed(ConnectError::TunnelEof) => chunk@.len() == 0,
                Verdict::Failed(ConnectError::HeadersTooLong) => chunk@.len() > 0 && granted
                    && !ended && all.len() >= 8192,
                Verdict::Failed(ConnectError::ProxyAuthRequired) => chunk@.len() > 0 && begins(
                    seq![72u8, 84, 84, 80, 47, 49, 46, 49, 32, 52, 48, 55],
                ),
                Verdict::Failed(ConnectError::Unsuccessful) => chunk@.len() > 0 && !granted
                    && !begins(seq![72u8, 84, 84, 80, 47, 49, 46, 49, 32, 52, 48, 55]),
                Verdict::Failed(_) => false,
            }
        }),
{
    verdict_by_bytes(old(tunnel)@, chunk@);
}

/// What the statuses are in bytes.
proof fn status_bytes()
    ensures
        encode_utf8("HTTP/1.1 200"@) == seq![72u8, 84, 84, 80, 47, 49, 46, 49, 32, 50, 48, 48],
        encode_utf8("HTTP/1.0 200"@) == seq![72u8, 84, 84, 80, 47, 49, 46, 48, 32, 50, 48, 48],
        encode_utf8("HTTP/1.1 407"@) == seq![72u8, 84, 84, 80, 47, 49, 46, 49, 32, 52, 48, 55],
{
    reveal_strlit("HTTP/1.1 200");
    reveal_strlit("HTTP/1.0 200");
    reveal_strlit("HTTP/1.1 407");
    is_ascii_chars_encode_utf8("HTTP/1.1 200"@);
    is_ascii_chars_encode_utf8("HTTP/1.0 200"@);
    is_ascii_chars_encode_utf8("HTTP/1.1 407"@);
    assert(encode_utf8("HTTP/1.1 200"@) =~= seq![
        72u8,
        84,
        84,
        80,
        47,
        49,
        46,
        49,
        32,
        50,
        48,
        48,
    ]);
    assert(encode_utf8("HTTP/1.0 200"@) =~= seq![
        72u8,
        84,
        84,
        80,
        47,
        49,
        46,
        48,
        32,
        50,
        48,
        48,
    ]);
    assert(encode_utf8("HTTP/1.1 407"@) =~= seq![
        72u8,
        84,
        84,
        80,
        47,
        49,
        46,
        49,
        32,
        52,
        48,
        55,
    ]);
}

/// What a reply means once `chunks` have been read one after the other, after
/// `received`. Reading goes on only while more of the reply is to come.
pub open spec fn outcome(received: Seq<u8>, chunks: Seq<Seq<u8>>) -> Verdict
    decreases chunks.len(),
{
    if chunks.len() == 0 {
        Verdict::More
    } else {
        match read_verdict(received, chunks[0]) {
            Verdict::More => outcome(received + chunks[0], chunks.drop_first()),
            v => v,
        }
    }
}

/// Whether no chunk is empty: none is the end of the stream.
pub open spec fn are_data(chunks: Seq<Seq<u8>>) -> bool {
    forall|k: int| 0 <= k < chunks.len() ==> (#[trigger] chunks[k]).len() > 0
}

/// A success that fits in the reply buffer establishes the tunnel however it is
/// cut into reads, provided that the first read brings the status.
pub proof fn success_establishes(reply: Seq<u8>, chunks: Seq<Seq<u8>>)
    requires
        is_success(reply),
        is_complete(reply),
        reply.len() <= REPLY_CAPACITY,
        are_data(chunks),
        chunks.flatten() == reply,
        chunks[0].len() >= 12,
    ensures
        outcome(Seq::empty(), chunks) == Verdict::Established,
{
    status_literals();
    assert(chunks.len() > 0) by {
        if chunks.len() == 0 {
            assert(reply.len() == 0);
        }
    }
    let rest = chunks.drop_first();
    assert(Seq::<u8>::empty() + chunks[0] =~= chunks[0]);
    assert(reply == chunks[0] + rest.flatten());
    same_status(chunks[0], reply);
    if rest.len() == 0 {
        assert(rest.flatten() =~= Seq::<u8>::empty());
        assert(chunks[0] =~= reply);
    } else {
        assert forall|k: int| 0 <= k < rest.len() implies (#[trigger] rest[k]).len() > 0 by {
            assert(rest[k] == chunks[k + 1]);
        }
        nonempty_flatten(rest);
        if !is_complete(chunks[0]) {
            success_continues(chunks[0], rest, reply);
        }
    }
}

/// The part of [`success_establishes`] that comes after the status.
proof fn success_continues(received: Seq<u8>, chunks: Seq<Seq<u8>>, reply: Seq<u8>)
    requires
        is_success(reply),
        is_complete(reply),
        reply.len() <= REPLY_CAPACITY,
        received.len() >= 12,
        are_data(chunks),
        chunks.len() > 0,
        reply == received + chunks.flatten(),
    ensures
        outcome(received, chunks) == Verdict::Established,
    decreases chunks.len(),
{
    status_literals();
    let next = received + chunks[0];
    let rest = chunks.drop_first();
    assert(reply =~= next + rest.flatten());
    same_status(next, reply);
    if rest.len() == 0 {
        assert(rest.flatten() =~= Seq::<u8>::empty());
        assert(next =~= reply);
    } else {
        assert forall|k: int| 0 <= k < rest.len() implies (#[trigger] rest[k]).len() > 0 by {
            assert(rest[k] == chunks[k + 1]);
        }
        nonempty_flatten(rest);
        if !is_complete(next) {
            success_continues(next, rest, reply);
        }
    }
}

/// A reply that is no success fails at once and in the same way however it is
/// cut into reads, provided that the first read brings the status: with a demand
/// for credentials if it is one, and as unsuccessful if it is not.
pub proof fn refusal_fails(reply: Seq<u8>, chunks: Seq<Seq<u8>>)
    requires
        !is_success(reply),
        are_data(chunks),
        chunks.len() > 0,
        chunks.flatten() == reply,
        chunks[0].len() >= 12,
    ensures
        outcome(Seq::empty(), chunks) == (if wants_credentials(reply) {
            Verdict::Failed(ConnectError::ProxyAuthRequired)
        } else {
            Verdict::Failed(ConnectError::Unsuccessful)
        }),
{
    status_literals();
    assert(Seq::<u8>::empty() + chunks[0] =~= chunks[0]);
    assert(reply == chunks[0] + chunks.drop_first().flatten());
    same_status(chunks[0], reply);
}

/// Whether the first `k` reads are those that a tunnel needs: each brings something,
/// the first one brings a success, and together they end with the empty line that
/// closes a head. No fewer of them end so, or fill the reply buffer.
pub open spec fn establishes(received: Seq<u8>, chunks: Seq<Seq<u8>>, k: int) -> bool {
    &&& 0 < k <= chunks.len()
    &&& are_data(chunks.take(k))
    &&& is_success(received + chunks[0])
    &&& is_complete(received + chunks.take(k).flatten())
    &&& forall|j: int|
        0 < j < k ==> {
            let sofar = received + #[trigger] chunks.take(j).flatten();
            !is_complete(sofar) && sofar.len() < REPLY_CAPACITY
        }
}

/// A tunnel is established exactly if some number of reads are those that it needs.
/// All that these bring is taken off the stream, also what comes after the reply
/// in the same reads.
pub proof fn complete_success_alone_establishes(received: Seq<u8>, chunks: Seq<Seq<u8>>)
    ensures
        outcome(received, chunks) == Verdict::Established <==> exists|k: int|
            establishes(received, chunks, k),
    decreases chunks.len(),
{
    if chunks.len() > 0 {
        let next = received + chunks[0];
        let rest = chunks.drop_first();
        first_read(received, chunks);
        complete_success_alone_establishes(next, rest);
        if read_verdict(received, chunks[0]) == Verdict::More {
            if exists|k: int| establishes(next, rest, k) {
                let k = choose|k: int| establishes(next, rest, k);
                one_read_earlier(received, chunks, k);
                assert(establishes(received, chunks, k + 1));
            }
            if exists|k: int| establishes(received, chunks, k) {
                let k = choose|k: int| establishes(received, chunks, k);
                assert(k != 1);
                one_read_earlier(received, chunks, k - 1);
                assert(establishes(next, rest, k - 1));
            }
        } else if outcome(received, chunks) == Verdict::Established {
            assert(are_data(chunks.take(1)));
            assert(establishes(received, chunks, 1));
        } else if exists|k: int| establishes(received, chunks, k) {
            let k = choose|k: int| establishes(received, chunks, k);
            assert(chunks.take(k)[0].len() > 0);
            if k > 1 {
                assert(!is_complete(received + chunks.take(1).flatten()));
            }
            assert(false);
        }
    }
}

/// The first of some reads brings its own bytes.
proof fn first_read(received: Seq<u8>, chunks: Seq<Seq<u8>>)
    requires
        chunks.len() > 0,
    ensures
        received + chunks.take(1).flatten() == received + chunks[0],
{
    let one = chunks.take(1);
    assert(one.drop_first() =~= Seq::<Seq<u8>>::empty());
    assert(one.drop_first().flatten() =~= Seq::<u8>::empty());
    assert(one.flatten() =~= chunks[0]);
}

/// Where the first read leaves more to come, `k` further ones are needed exactly
/// if `k + 1` are with it.
proof fn one_read_earlier(received: Seq<u8>, chunks: Seq<Seq<u8>>, k: int)
    requires
        chunks.len() > 0,
        read_verdict(received, chunks[0]) == Verdict::More,
        k > 0,
    ensures
        establishes(received, chunks, k + 1) == establishes(
            received + chunks[0],
            chunks.drop_first(),
            k,
        ),
{
    let next = received + chunks[0];
    let rest = chunks.drop_first();
    first_read(received, chunks);
    assert forall|j: int| 0 <= j <= rest.len() implies received + (#[trigger] chunks.take(
        j + 1,
    )).flatten() == next + rest.take(j).flatten() by {
        assert(chunks.take(j + 1).drop_first() =~= rest.take(j));
        assert(chunks.take(j + 1)[0] == chunks[0]);
        assert(received + chunks.take(j + 1).flatten() =~= next + rest.take(j).flatten());
    }
    if k <= rest.len() {
        assert(received + chunks.take(k + 1).flatten() == next + rest.take(k).flatten());
        success_lasts(next, rest[0]);
        if establishes(next, rest, k) {
            assert forall|j: int| 0 <= j < k + 1 implies (#[trigger] chunks.take(k + 1)[j]).len()
                > 0 by {
                if j > 0 {
                    assert(chunks.take(k + 1)[j] == rest.take(k)[j - 1]);
                }
            }
            assert forall|j: int| 0 < j < k + 1 implies {
                let sofar = received + #[trigger] chunks.take(j).flatten();
                !is_complete(sofar) && sofar.len() < REPLY_CAPACITY
            } by {
                if j > 1 {
                    let i = j - 1;
                    assert(received + chunks.take(i + 1).flatten() == next + rest.take(i).flatten());
                }
            }
        }
        if establishes(received, chunks, k + 1) {
            assert forall|j: int| 0 <= j < k implies (#[trigger] rest.take(k)[j]).len() > 0 by {
                assert(chunks.take(k + 1)[j + 1] == rest.take(k)[j]);
            }
            assert forall|j: int| 0 < j < k implies {
                let sofar = next + #[trigger] rest.take(j).flatten();
                !is_complete(sofar) && sofar.len() < REPLY_CAPACITY
            } by {
                assert(received + chunks.take(j + 1).flatten() == next + rest.take(j).flatten());
            }
        }
    }
}

/// A success stays one, whatever follows.
proof fn success_lasts(received: Seq<u8>, chunk: Seq<u8>)
    requires
        is_success(received),
    ensures
        is_success(received + chunk),
{
    status_literals();
    let more = received + chunk;
    assert(more.subrange(0, received.len() as int) =~= received);
    same_prefix(encode_utf8("HTTP/1.1 200"@), received, more);
    same_prefix(encode_utf8("HTTP/1.0 200"@), received, more);
}

/// An end of the stream before the reply is complete is a failure, and it is
/// told from every other one.
pub proof fn early_end_fails(received: Seq<u8>, chunks: Seq<Seq<u8>>)
    requires
        outcome(received, chunks) == Verdict::More,
    ensures
        outcome(received, chunks.push(Seq::empty())) == Verdict::Failed(ConnectError::TunnelEof),
    decreases chunks.len(),
{
    let more = chunks.push(Seq::empty());
    if chunks.len() > 0 {
        assert(more[0] == chunks[0]);
        assert(more.drop_first() =~= chunks.drop_first().push(Seq::empty()));
        early_end_fails(received + chunks[0], chunks.drop_first());
    }
}

/// While more is to come there is room for it, so a reader that asks for no
/// more than there is room for asks at most [`REPLY_CAPACITY`] times.
pub proof fn reading_is_bounded(chunks: Seq<Seq<u8>>)
    requires
        outcome(Seq::empty(), chunks) == Verdict::More,
    ensures
        chunks.len() < REPLY_CAPACITY,
        chunks.flatten().len() < REPLY_CAPACITY,
{
    bounded_from(Seq::empty(), chunks);
}

proof fn bounded_from(received: Seq<u8>, chunks: Seq<Seq<u8>>)
    requires
        outcome(received, chunks) == Verdict::More,
        received.len() < REPLY_CAPACITY,
    ensures
        received.len() + chunks.len() < REPLY_CAPACITY,
        received.len() + chunks.flatten().len() < REPLY_CAPACITY,
    decreases chunks.len(),
{
    if chunks.len() > 0 {
        bounded_from(received + chunks[0], chunks.drop_first());
    }
}

proof fn nonempty_flatten(chunks: Seq<Seq<u8>>)
    requires
        are_data(chunks),
        chunks.len() > 0,
    ensures
        chunks.flatten().len() > 0,
{
}

/// Each status is told by twelve bytes.
proof fn status_literals()
    ensures
        encode_utf8("HTTP/1.1 200"@).len() == 12,
        encode_utf8("HTTP/1.0 200"@).len() == 12,
        encode_utf8("HTTP/1.1 407"@).len() == 12,
{
    reveal_strlit("HTTP/1.1 200");
    reveal_strlit("HTTP/1.0 200");
    reveal_strlit("HTTP/1.1 407");
    is_ascii_chars_encode_utf8("HTTP/1.1 200"@);
    is_ascii_chars_encode_utf8("HTTP/1.0 200"@);
    is_ascii_chars_encode_utf8("HTTP/1.1 407"@);
}

/// The first twelve bytes settle the status.
proof fn same_status(received: Seq<u8>, reply: Seq<u8>)
    requires
        received.len() >= 12,
        received.is_prefix_of(reply),
    ensures
        is_success(received) == is_success(reply),
        wants_credentials(received) == wants_credentials(reply),
{
    status_literals();
    same_prefix(encode_utf8("HTTP/1.1 200"@), received, reply);
    same_prefix(encode_utf8("HTTP/1.0 200"@), received, reply);
    same_prefix(encode_utf8("HTTP/1.1 407"@), received, reply);
}

proof fn same_prefix(prefix: Seq<u8>, received: Seq<u8>, reply: Seq<u8>)
    requires
        prefix.len() <= received.len(),
        received.is_prefix_of(reply),
    ensures
        prefix.is_prefix_of(received) == prefix.is_prefix_of(reply),
{
    let n = prefix.len() as int;
    assert(received.subrange(0, n) =~= reply.subrange(0, n)) by {
        assert forall|i: int| 0 <= i < n implies received[i] == reply[i] by {
            assert(reply.subrange(0, received.len() as int)[i] == received[i]);
        }
    }
}

} // verus!
