//! Showing in the log what passes over a connection.
use vstd::prelude::*;

use crate::escape::{
    byte_string, byte_string_is_injective, byte_string_is_printable, digits_are_from_the_table,
    hex_digit, hex_digits, hex_digits_are_printable, is_printable, push_hex, Escape,
};

verus! {

/// The setting whether connections are to be shown in the log.
#[derive(Clone, Copy, Debug, PartialEq, Eq, Structural)]
pub struct Wrapper(pub bool);

/// A connection that is shown in the log, under a number of its own.
#[derive(Debug)]
pub struct Verbose<T> {
    pub id: u32,
    pub inner: T,
}

/// A connection, shown in the log or not.
#[derive(Debug)]
pub enum Wrapped<T> {
    Verbose(Verbose<T>),
    Plain(T),
}

/// The number that a connection gets from a random one: its low 32 bits.
pub open spec fn short_id(random: u64) -> u32 {
    (random % 0x1_0000_0000) as u32
}

/// What wrapping a connection makes of it.
pub open spec fn wrapping<T>(
    wrapper: Wrapper,
    conn: T,
    trace_enabled: bool,
    random: u64,
) -> Wrapped<T> {
    if wrapper.0 && trace_enabled {
        Wrapped::Verbose(Verbose { id: short_id(random), inner: conn })
    } else {
        Wrapped::Plain(conn)
    }
}

impl Wrapper {
    /// Wraps a connection so that it is shown in the log, if that was asked for
    /// and the log takes lines at that level (`trace_enabled`); hands the
    /// connection back as it is if not.
    pub fn wrap<T>(&self, conn: T, trace_enabled: bool, random: u64) -> (r: Wrapped<T>)
        ensures
            r == wrapping(*self, conn, trace_enabled, random),
    {
        if self.0 && trace_enabled {
            assert((random % 0x1_0000_0000) as u32 == random as u32) by (bit_vector);
            Wrapped::Verbose(
                Verbose {
                    // truncate is fine
                    id: #[verifier::truncate] (random as u32),
                    inner: conn,
                },
            )
        } else {
            Wrapped::Plain(conn)
        }
    }
}

/// What polling a connection brought: how many bytes passed or why none did,
/// or that it is not ready.
#[derive(Debug, PartialEq, Eq)]
pub enum Polled<E> {
    Ready(Result<usize, E>),
    Pending,
}

/// The log line for bytes that have passed: who, in which direction, and what.
pub open spec fn trace_line(id: u32, verb: Seq<char>, bytes: Seq<u8>) -> Seq<char> {
    hex_digits(id as nat, 8) + verb + byte_string(bytes)
}

/// Whether a log line is the one that is due: there is one exactly if bytes
/// have passed, and it shows those.
pub open spec fn is_trace<E>(
    line: Option<String>,
    id: u32,
    verb: Seq<char>,
    buf: Seq<u8>,
    polled: Polled<E>,
) -> bool {
    match polled {
        Polled::Ready(Ok(n)) => line matches Some(text) && text@ == trace_line(
            id,
            verb,
            buf.take(n as int),
        ),
        _ => line is None,
    }
}

fn format_line(id: u32, verb: &str, bytes: &[u8]) -> (r: String)
    ensures
        r@ == trace_line(id, verb@, bytes@),
{
    let mut s = String::new();
    push_hex(&mut s, id, 8);
    s.append(verb);
    let shown = Escape(bytes).fmt();
    s.append(shown.as_str());
    assert(s@ =~= trace_line(id, verb@, bytes@));
    s
}

impl<T> Verbose<T> {
    fn passed<E>(&self, verb: &str, buf: &[u8], polled: &Polled<E>) -> (line: Option<String>)
        requires
            polled matches Polled::Ready(Ok(n)) ==> n <= buf@.len(),
        ensures
            is_trace(line, self.id, verb@, buf@, *polled),
    {
        match polled {
            Polled::Ready(Ok(n)) => {
                let (bytes, _) = buf.split_at(*n);
                assert(bytes@ =~= buf@.take(*n as int));
                Some(format_line(self.id, verb, bytes))
            },
            _ => None,
        }
    }

    /// Takes what a read into `buf` brought: the log line for it, if bytes have
    /// come, and the outcome unchanged.
    pub fn poll_read<E>(&self, buf: &[u8], polled: Polled<E>) -> (r: (Option<String>, Polled<E>))
        requires
            polled matches Polled::Ready(Ok(n)) ==> n <= buf@.len(),
        ensures
            is_trace(r.0, self.id, " read: "@, buf@, polled),
            r.1 == polled,
    {
        let line = self.passed(" read: ", buf, &polled);
        (line, polled)
    }

    /// Takes what a write of `buf` brought: the log line for what was taken, if
    /// bytes have been, and the outcome unchanged.
    pub fn poll_write<E>(&self, buf: &[u8], polled: Polled<E>) -> (r: (Option<String>, Polled<E>))
        requires
            polled matches Polled::Ready(Ok(n)) ==> n <= buf@.len(),
        ensures
            is_trace(r.0, self.id, " write: "@, buf@, polled),
            r.1 == polled,
    {
        let line = self.passed(" write: ", buf, &polled);
        (line, polled)
    }
}

impl<T> Wrapped<T> {
    /// The connection that is wrapped.
    pub open spec fn conn(self) -> T {
        match self {
            Wrapped::Verbose(verbose) => verbose.inner,
            Wrapped::Plain(conn) => conn,
        }
    }

    /// The same wrapping around another connection.
    pub open spec fn around(self, conn: T) -> Wrapped<T> {
        match self {
            Wrapped::Verbose(verbose) => Wrapped::Verbose(Verbose { inner: conn, ..verbose }),
            Wrapped::Plain(_) => Wrapped::Plain(conn),
        }
    }

    /// Whether a log line is the one that is due: none for a connection that is
    /// not shown, and else the one for the bytes that have passed.
    pub open spec fn shows<E>(
        self,
        line: Option<String>,
        verb: Seq<char>,
        buf: Seq<u8>,
        polled: Polled<E>,
    ) -> bool {
        match self {
            Wrapped::Verbose(verbose) => is_trace(line, verbose.id, verb, buf, polled),
            Wrapped::Plain(_) => line is None,
        }
    }

    /// The connection that is wrapped.
    pub fn inner(&self) -> (r: &T)
        ensures
            *r == self.conn(),
    {
        match self {
            Wrapped::Verbose(verbose) => &verbose.inner,
            Wrapped::Plain(conn) => conn,
        }
    }

    /// The connection that is wrapped, to make a call on: what the call makes of it
    /// is then what is wrapped.
    pub fn inner_mut(&mut self) -> (r: &mut T)
        ensures
            *r == old(self).conn(),
            *final(self) == old(self).around(*final(r)),
    {
        match self {
            Wrapped::Verbose(verbose) => &mut verbose.inner,
            Wrapped::Plain(conn) => conn,
        }
    }

    /// Takes what a read into `buf` brought: the log line for it, if one is due,
    /// and the outcome unchanged.
    pub fn poll_read<E>(&self, buf: &[u8], polled: Polled<E>) -> (r: (Option<String>, Polled<E>))
        requires
            polled matches Polled::Ready(Ok(n)) ==> n <= buf@.len(),
        ensures
            self.shows(r.0, " read: "@, buf@, polled),
            r.1 == polled,
    {
        match self {
            Wrapped::Verbose(verbose) => verbose.poll_read(buf, polled),
            Wrapped::Plain(_) => (None, polled),
        }
    }

    /// Takes what a write of `buf` brought: the log line for what was taken, if one
    /// is due, and the outcome unchanged.
    pub fn poll_write<E>(&self, buf: &[u8], polled: Polled<E>) -> (r: (Option<String>, Polled<E>))
        requires
            polled matches Polled::Ready(Ok(n)) ==> n <= buf@.len(),
        ensures
            self.shows(r.0, " write: "@, buf@, polled),
            r.1 == polled,
    {
        match self {
            Wrapped::Verbose(verbose) => verbose.poll_write(buf, polled),
            Wrapped::Plain(_) => (None, polled),
        }
    }
}

/// What a connection has become after some calls on it, where `respond` gives what
/// each call makes of it and what it brings.
pub open spec fn after_calls<T, C, R>(
    conn: T,
    respond: spec_fn(T, C) -> (T, R),
    calls: Seq<C>,
) -> T
    decreases calls.len(),
{
    if calls.len() == 0 {
        conn
    } else {
        respond(after_calls(conn, respond, calls.drop_last()), calls.last()).0
    }
}

/// What each of some calls on a connection brings.
pub open spec fn replies<T, C, R>(
    conn: T,
    respond: spec_fn(T, C) -> (T, R),
    calls: Seq<C>,
) -> Seq<R> {
    Seq::new(
        calls.len(),
        |i: int| respond(after_calls(conn, respond, calls.take(i)), calls[i]).1,
    )
}

/// What a call on a wrapped connection makes of it and brings: it is made on the
/// connection inside, and what that brings is handed on.
pub open spec fn through<T, C, R>(respond: spec_fn(T, C) -> (T, R)) -> spec_fn(Wrapped<T>, C) -> (
    Wrapped<T>,
    R,
) {
    |wrapped: Wrapped<T>, call: C|
        {
            let (conn, reply) = respond(wrapped.conn(), call);
            (wrapped.around(conn), reply)
        }
}

/// Wrapping a connection makes no difference to whoever uses it: whatever calls are
/// made, of whatever kind and however the connection responds to them, they bring
/// what they bring on the connection itself, and leave it as they leave that.
pub proof fn wrapping_is_transparent<T, C, R>(
    wrapper: Wrapper,
    conn: T,
    trace_enabled: bool,
    random: u64,
    respond: spec_fn(T, C) -> (T, R),
    calls: Seq<C>,
)
    ensures
        ({
            let wrapped = wrapping(wrapper, conn, trace_enabled, random);
            &&& wrapped.conn() == conn
            &&& after_calls(wrapped, through(respond), calls) == wrapped.around(
                after_calls(conn, respond, calls),
            )
            &&& replies(wrapped, through(respond), calls) == replies(conn, respond, calls)
        }),
{
    let wrapped = wrapping(wrapper, conn, trace_enabled, random);
    calls_reach_the_connection(wrapped, respond, calls);
    assert forall|i: int| 0 <= i < calls.len() implies #[trigger] replies(
        wrapped,
        through(respond),
        calls,
    )[i] == replies(conn, respond, calls)[i] by {
        calls_reach_the_connection(wrapped, respond, calls.take(i));
    }
    assert(replies(wrapped, through(respond), calls) =~= replies(conn, respond, calls));
}

proof fn calls_reach_the_connection<T, C, R>(
    wrapped: Wrapped<T>,
    respond: spec_fn(T, C) -> (T, R),
    calls: Seq<C>,
)
    ensures
        after_calls(wrapped, through(respond), calls) == wrapped.around(
            after_calls(wrapped.conn(), respond, calls),
        ),
    decreases calls.len(),
{
    if calls.len() > 0 {
        calls_reach_the_connection(wrapped, respond, calls.drop_last());
    }
}

/// Whatever passes over a connection, it is shown on one line: the number in
/// eight digits, the direction, and the bytes, all of it printable ASCII.
pub proof fn trace_line_is_one_line(id: u32, verb: Seq<char>, bytes: Seq<u8>)
    requires
        is_printable(verb),
    ensures
        is_printable(trace_line(id, verb, bytes)),
        trace_line(id, verb, bytes).take(8) == hex_digits(id as nat, 8),
{
    hex_digits_are_printable(id as nat, 8);
    byte_string_is_printable(bytes);
    assert(trace_line(id, verb, bytes).take(8) =~= hex_digits(id as nat, 8));
}

/// The lines of one direction tell connections with different numbers apart, and
/// show what passed: equal lines are of the same number and the same bytes.
pub proof fn trace_line_is_injective(
    id1: u32,
    bytes1: Seq<u8>,
    id2: u32,
    bytes2: Seq<u8>,
    verb: Seq<char>,
)
    requires
        trace_line(id1, verb, bytes1) == trace_line(id2, verb, bytes2),
    ensures
        id1 == id2,
        bytes1 == bytes2,
{
    let a = trace_line(id1, verb, bytes1);
    let b = trace_line(id2, verb, bytes2);
    hex_digits_are_printable(id1 as nat, 8);
    hex_digits_are_printable(id2 as nat, 8);
    assert(a.take(8) =~= hex_digits(id1 as nat, 8));
    assert(b.take(8) =~= hex_digits(id2 as nat, 8));
    assert(capacity(8) == 0x1_0000_0000) by {
        reveal_with_fuel(capacity, 9);
    }
    hex_digits_are_injective(id1 as nat, id2 as nat, 8);
    let n = (8 + verb.len()) as int;
    assert(a.skip(n) =~= byte_string(bytes1));
    assert(b.skip(n) =~= byte_string(bytes2));
    byte_string_is_injective(bytes1, bytes2);
}

/// Sixteen to the power of `width`.
spec fn capacity(width: nat) -> nat
    decreases width,
{
    if width == 0 {
        1
    } else {
        16 * capacity((width - 1) as nat)
    }
}

proof fn hex_digits_are_injective(a: nat, b: nat, width: nat)
    requires
        a < capacity(width),
        b < capacity(width),
        hex_digits(a, width) == hex_digits(b, width),
    ensures
        a == b,
    decreases width,
{
    if width > 0 {
        let w = (width - 1) as nat;
        let x = hex_digits(a, width);
        let y = hex_digits(b, width);
        assert(x.drop_last() =~= hex_digits(a / 16, w));
        assert(y.drop_last() =~= hex_digits(b / 16, w));
        assert(x.last() == hex_digit(a % 16));
        assert(y.last() == hex_digit(b % 16));
        hex_digits_are_injective(a / 16, b / 16, w);
    }
}

/// A connection is shown in the log exactly if that was asked for and the log takes
/// such lines; either way it is the one inside. Its number is the low half of the
/// random one.
pub proof fn connections_are_shown_if_asked_and_enabled<T>(
    wrapper: &Wrapper,
    conn: T,
    trace_enabled: bool,
    random: u64,
    r: Wrapped<T>,
)
    requires
        call_ensures(Wrapper::wrap::<T>, (wrapper, conn, trace_enabled, random), r),
    ensures
        match r {
            Wrapped::Verbose(shown) => {
                &&& wrapper.0
                &&& trace_enabled
                &&& shown.inner == conn
                &&& shown.id == random % 0x1_0000_0000
            },
            Wrapped::Plain(own) => own == conn && !(wrapper.0 && trace_enabled),
        },
{
}

/// What passes over a connection that is shown is told in the log: its number in
/// eight digits, whether it was read or written, and the literal of exactly those
/// bytes that have passed. Where none have, for an error or because the connection
/// is not ready, nothing is told. The outcome is handed on as it is.
pub proof fn lines_tell_what_passed<T, E>(
    verbose: &Verbose<T>,
    buf: &[u8],
    polled: Polled<E>,
    passed: &Escape,
    literal: String,
    read: (Option<String>, Polled<E>),
    written: (Option<String>, Polled<E>),
)
    requires
        call_ensures(Verbose::<T>::poll_read::<E>, (verbose, buf, polled), read),
        call_ensures(Verbose::<T>::poll_write::<E>, (verbose, buf, polled), written),
        call_ensures(Escape::fmt, (passed,), literal),
        polled matches Polled::Ready(Ok(n)) ==> n <= buf@.len() && passed.0@ == buf@.take(n as int),
    ensures
        read.1 == polled,
        written.1 == polled,
        match polled {
            Polled::Ready(Ok(_)) => {
                let id = verbose.id as int;
                let table = "0123456789abcdef"@;
                let number = seq![
                    table[id / 0x1000_0000 % 16],
                    table[id / 0x100_0000 % 16],
                    table[id / 0x10_0000 % 16],
                    table[id / 0x1_0000 % 16],
                    table[id / 0x1000 % 16],
                    table[id / 0x100 % 16],
                    table[id / 0x10 % 16],
                    table[id % 16],
                ];
                &&& read.0 matches Some(line)
                &&& line@ == number + seq![' ', 'r', 'e', 'a', 'd', ':', ' '] + literal@
                &&& written.0 matches Some(line)
                &&& line@ == number + seq![' ', 'w', 'r', 'i', 't', 'e', ':', ' '] + literal@
            },
            _ => read.0 is None && written.0 is None,
        },
{
    reveal_strlit(" read: ");
    reveal_strlit(" write: ");
    assert(" read: "@ =~= seq![' ', 'r', 'e', 'a', 'd', ':', ' ']);
    assert(" write: "@ =~= seq![' ', 'w', 'r', 'i', 't', 'e', ':', ' ']);
    numbers_have_eight_digits(verbose.id);
}

proof fn numbers_have_eight_digits(id: u32)
    ensures
        ({
            let n = id as int;
            let table = "0123456789abcdef"@;
            hex_digits(id as nat, 8) == seq![
                table[n / 0x1000_0000 % 16],
                table[n / 0x100_0000 % 16],
                table[n / 0x10_0000 % 16],
                table[n / 0x1_0000 % 16],
                table[n / 0x1000 % 16],
                table[n / 0x100 % 16],
                table[n / 0x10 % 16],
                table[n % 16],
            ]
        }),
{
    reveal_with_fuel(hex_digits, 9);
    let n = id as nat;
    assert(n / 16 / 16 == n / 0x100);
    assert(n / 0x100 / 16 == n / 0x1000);
    assert(n / 0x1000 / 16 == n / 0x1_0000);
    assert(n / 0x1_0000 / 16 == n / 0x10_0000);
    assert(n / 0x10_0000 / 16 == n / 0x100_0000);
    assert(n / 0x100_0000 / 16 == n / 0x1000_0000);
    digits_are_from_the_table(n % 16);
    digits_are_from_the_table(n / 16 % 16);
    digits_are_from_the_table(n / 0x100 % 16);
    digits_are_from_the_table(n / 0x1000 % 16);
    digits_are_from_the_table(n / 0x1_0000 % 16);
    digits_are_from_the_table(n / 0x10_0000 % 16);
    digits_are_from_the_table(n / 0x100_0000 % 16);
    digits_are_from_the_table(n / 0x1000_0000 % 16);
    let table = "0123456789abcdef"@;
    assert(hex_digits(n, 8) =~= seq![
        table[n as int / 0x1000_0000 % 16],
        table[n as int / 0x100_0000 % 16],
        table[n as int / 0x10_0000 % 16],
        table[n as int / 0x1_0000 % 16],
        table[n as int / 0x1000 % 16],
        table[n as int / 0x100 % 16],
        table[n as int / 0x10 % 16],
        table[n as int % 16],
    ]);
}

/// Over a wrapped connection an outcome is told and handed on as the connection's
/// own wrapping does it, and not told at all without one.
pub proof fn wrapped_outcomes_are_handed_on<T, E>(
    wrapped: &Wrapped<T>,
    buf: &[u8],
    polled: Polled<E>,
    read: (Option<String>, Polled<E>),
    written: (Option<String>, Polled<E>),
    shown_read: (Option<String>, Polled<E>),
    shown_written: (Option<String>, Polled<E>),
)
    requires
        call_ensures(Wrapped::<T>::poll_read::<E>, (wrapped, buf, polled), read),
        call_ensures(Wrapped::<T>::poll_write::<E>, (wrapped, buf, polled), written),
        wrapped matches Wrapped::Verbose(shown) ==> {
            &&& call_ensures(Verbose::<T>::poll_read::<E>, (&shown, buf, polled), shown_read)
            &&& call_ensures(Verbose::<T>::poll_write::<E>, (&shown, buf, polled), shown_written)
        },
    ensures
        read.1 == polled,
        written.1 == polled,
        match wrapped {
            Wrapped::Verbose(_) => {
                &&& match (read.0, shown_read.0) {
                    (Some(line), Some(own)) => line@ == own@,
                    (None, None) => true,
                    _ => false,
                }
                &&& match (written.0, shown_written.0) {
                    (Some(line), Some(own)) => line@ == own@,
                    (None, None) => true,
                    _ => false,
                }
            },
            Wrapped::Plain(_) => read.0 is None && written.0 is None,
        },
{
}

/// Calls on a wrapped connection are made on the connection inside, and what they
/// make of it is inside afterwards; the number and whether it is shown stay.
pub proof fn calls_are_made_on_the_connection_inside<T>(
    wrapped: &mut Wrapped<T>,
    inner: &T,
    inner_mut: &mut T,
)
    requires
        call_ensures(Wrapped::<T>::inner, (&*old(wrapped),), inner),
        call_ensures(Wrapped::<T>::inner_mut, (wrapped,), inner_mut),
    ensures
        match (*old(wrapped), *final(wrapped)) {
            (Wrapped::Verbose(before), Wrapped::Verbose(after)) => {
                &&& *inner == before.inner
                &&& *old(inner_mut) == before.inner
                &&& *final(inner_mut) == after.inner
                &&& after.id == before.id
            },
            (Wrapped::Plain(before), Wrapped::Plain(after)) => {
                &&& *inner == before
                &&& *old(inner_mut) == before
                &&& *final(inner_mut) == after
            },
            _ => false,
        },
{
}

} // verus!
