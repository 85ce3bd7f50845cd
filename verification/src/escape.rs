//! Bytes written as a byte string literal, for log lines.
use vstd::prelude::*;

verus! {

/// `String::push` appends the given character to the end of the string.
pub assume_specification[ String::push ](s: &mut String, c: char)
    ensures
        final(s)@ == old(s)@.push(c),
;

/// A hexadecimal digit, in lower case.
pub open spec fn hex_digit(n: nat) -> char {
    if n < 10 {
        (('0' as nat) + n) as char
    } else {
        (('a' as nat) + n - 10) as char
    }
}

/// The last `width` hexadecimal digits of `n`, with leading zeros.
pub open spec fn hex_digits(n: nat, width: nat) -> Seq<char>
    decreases width,
{
    if width == 0 {
        Seq::empty()
    } else {
        hex_digits(n / 16, (width - 1) as nat).push(hex_digit(n % 16))
    }
}

/// How one byte is written inside a byte string literal: itself if it is
/// printable ASCII other than a backslash or a quote, and as an escape if not.
pub open spec fn escape_byte(c: u8) -> Seq<char> {
    if c == 10 {
        seq!['\\', 'n']
    } else if c == 13 {
        seq!['\\', 'r']
    } else if c == 9 {
        seq!['\\', 't']
    } else if c == 92 || c == 34 {
        seq!['\\', c as char]
    } else if c == 0 {
        seq!['\\', '0']
    } else if 32 <= c < 127 {
        seq![c as char]
    } else {
        seq!['\\', 'x'] + hex_digits(c as nat, 2)
    }
}

/// How bytes are written inside a byte string literal.
pub open spec fn escape_bytes(bytes: Seq<u8>) -> Seq<char>
    decreases bytes.len(),
{
    if bytes.len() == 0 {
        Seq::empty()
    } else {
        escape_byte(bytes[0]) + escape_bytes(bytes.drop_first())
    }
}

/// Bytes as a byte string literal.
pub open spec fn byte_string(bytes: Seq<u8>) -> Seq<char> {
    seq!['b', '"'] + escape_bytes(bytes) + seq!['"']
}

/// Appends the last `width` hexadecimal digits of `n`.
pub fn push_hex(s: &mut String, n: u32, width: u32)
    ensures
        final(s)@ == old(s)@ + hex_digits(n as nat, width as nat),
    decreases width,
{
    if width > 0 {
        push_hex(s, n / 16, width - 1);
        let d: u8 = (n % 16) as u8;
        if d < 10 {
            s.push((48 + d) as char);
        } else {
            s.push((87 + d) as char);
        }
    }
    assert(s@ =~= old(s)@ + hex_digits(n as nat, width as nat));
}

fn push_escaped(s: &mut String, c: u8)
    ensures
        final(s)@ == old(s)@ + escape_byte(c),
{
    if c == 10 {
        s.push('\\');
        s.push('n');
    } else if c == 13 {
        s.push('\\');
        s.push('r');
    } else if c == 9 {
        s.push('\\');
        s.push('t');
    } else if c == 92 || c == 34 {
        s.push('\\');
        s.push(c as char);
    } else if c == 0 {
        s.push('\\');
        s.push('0');
    } else if c >= 0x20 && c < 0x7f {
        s.push(c as char);
    } else {
        s.push('\\');
        s.push('x');
        push_hex(s, c as u32, 2);
    }
    assert(s@ =~= old(s)@ + escape_byte(c));
}

/// Bytes to be written as a byte string literal.
pub struct Escape<'a>(pub &'a [u8]);

impl<'a> Escape<'a> {
    /// The literal.
    pub fn fmt(&self) -> (r: String)
        ensures
            r@ == byte_string(self.0@),
    {
        let mut s = String::new();
        s.push('b');
        s.push('"');
        let n: usize = self.0.len();
        let mut i: usize = 0;
        assert(self.0@.skip(0) =~= self.0@);
        while i < n
            invariant
                n == self.0@.len(),
                i <= n,
                s@ + escape_bytes(self.0@.skip(i as int)) == seq!['b', '"'] + escape_bytes(self.0@),
            decreases n - i,
        {
            let c: u8 = self.0[i];
            let ghost before = s@;
            push_escaped(&mut s, c);
            proof {
                let rest = self.0@.skip(i as int);
                assert(rest[0] == c);
                assert(rest.drop_first() =~= self.0@.skip(i + 1));
                assert(before + (escape_byte(c) + escape_bytes(rest.drop_first())) =~= s@
                    + escape_bytes(self.0@.skip(i + 1)));
            }
            i = i + 1;
        }
        assert(self.0@.skip(n as int) =~= Seq::<u8>::empty());
        assert(s@ =~= seq!['b', '"'] + escape_bytes(self.0@));
        s.push('"');
        assert(s@ =~= byte_string(self.0@));
        s
    }
}

/// Whether a text is printable ASCII throughout. Such a text is one line.
pub open spec fn is_printable(text: Seq<char>) -> bool {
    forall|i: int| 0 <= i < text.len() ==> ' ' <= #[trigger] text[i] <= '~'
}

/// Whatever the bytes, their literal is printable ASCII: a log line that shows
/// bytes from the wire stays one line.
pub proof fn byte_string_is_printable(bytes: Seq<u8>)
    ensures
        is_printable(byte_string(bytes)),
{
    escapes_are_printable(bytes);
}

proof fn escapes_are_printable(bytes: Seq<u8>)
    ensures
        is_printable(escape_bytes(bytes)),
    decreases bytes.len(),
{
    if bytes.len() > 0 {
        escapes_are_printable(bytes.drop_first());
        hex_digits_are_printable(bytes[0] as nat, 2);
    }
}

pub(crate) proof fn hex_digits_are_printable(n: nat, width: nat)
    ensures
        is_printable(hex_digits(n, width)),
        hex_digits(n, width).len() == width,
    decreases width,
{
    if width > 0 {
        hex_digits_are_printable(n / 16, (width - 1) as nat);
    }
}

/// The literal tells which bytes it was made from: two byte sequences that are
/// written alike are the same.
pub proof fn byte_string_is_injective(a: Seq<u8>, b: Seq<u8>)
    requires
        byte_string(a) == byte_string(b),
    ensures
        a == b,
{
    let x = escape_bytes(a);
    let y = escape_bytes(b);
    assert(byte_string(a).subrange(2, byte_string(a).len() - 1) =~= x);
    assert(byte_string(b).subrange(2, byte_string(b).len() - 1) =~= y);
    escapes_are_injective(a, b);
}

proof fn escapes_are_injective(a: Seq<u8>, b: Seq<u8>)
    requires
        escape_bytes(a) == escape_bytes(b),
    ensures
        a == b,
    decreases a.len(),
{
    if a.len() == 0 {
        if b.len() > 0 {
            assert(escape_byte(b[0]).len() > 0) by {
                reveal_with_fuel(hex_digits, 3);
            }
            assert(escape_bytes(b).len() > 0);
        }
        assert(a =~= b);
    } else if b.len() == 0 {
        assert(escape_byte(a[0]).len() > 0) by {
            reveal_with_fuel(hex_digits, 3);
        }
        assert(escape_bytes(a).len() > 0);
    } else {
        first_byte(a[0], escape_bytes(a.drop_first()), b[0], escape_bytes(b.drop_first()));
        escapes_are_injective(a.drop_first(), b.drop_first());
        assert(a =~= seq![a[0]] + a.drop_first());
        assert(b =~= seq![b[0]] + b.drop_first());
    }
}

/// What the escapes look like.
proof fn escape_shape(c: u8)
    ensures
        ({
            let e = escape_byte(c);
            &&& e.len() == 1 || e.len() == 2 || e.len() == 4
            &&& e.len() == 1 ==> e[0] == c as char && e[0] != '\\'
            &&& e.len() > 1 ==> e[0] == '\\'
            &&& e.len() == 2 ==> e[1] != 'x'
            &&& e.len() == 4 ==> e[1] == 'x' && e[2] == hex_digit((c as nat) / 16) && e[3]
                == hex_digit((c as nat) % 16)
        }),
{
    reveal_with_fuel(hex_digits, 3);
    let digits = hex_digits(c as nat, 2);
    assert(digits =~= seq![hex_digit((c as nat) / 16 % 16), hex_digit((c as nat) % 16)]);
    assert((c as nat) / 16 % 16 == (c as nat) / 16);
}

/// No escape is the beginning of another one.
proof fn first_byte(x: u8, s: Seq<char>, y: u8, t: Seq<char>)
    requires
        escape_byte(x) + s == escape_byte(y) + t,
    ensures
        x == y,
        s == t,
{
    let left = escape_byte(x) + s;
    let right = escape_byte(y) + t;
    escape_shape(x);
    escape_shape(y);
    assert(left[0] == right[0]);
    assert(left[0] == escape_byte(x)[0]);
    assert(right[0] == escape_byte(y)[0]);
    if escape_byte(x).len() > 1 {
        assert(left[1] == escape_byte(x)[1]);
        assert(right[1] == escape_byte(y)[1]);
        if escape_byte(x).len() == 4 {
            assert(left[2] == escape_byte(x)[2] && left[3] == escape_byte(x)[3]);
            assert(right[2] == escape_byte(y)[2] && right[3] == escape_byte(y)[3]);
        }
    }
    assert(x == y);
    let n = escape_byte(x).len() as int;
    assert(left.subrange(n, left.len() as int) =~= s);
    assert(right.subrange(n, right.len() as int) =~= t);
}

/// The literal of no bytes is `b""`, and that of bytes with one more has the escape of
/// that one before the closing quote: `\n`, `\r`, `\t` and `\0` for the line feed,
/// the carriage return, the tab and the zero byte; a backslash before a backslash
/// or a quote; any other byte from the space to the tilde as the character that it
/// is; and for the rest `\x` and two digits out of `0` to `f`.
pub proof fn literals_grow_by_one_escape(
    none: &Escape,
    before: &Escape,
    after: &Escape,
    byte: u8,
    empty: String,
    short: String,
    long: String,
)
    requires
        none.0@.len() == 0,
        after.0@ == before.0@.push(byte),
        call_ensures(Escape::fmt, (none,), empty),
        call_ensures(Escape::fmt, (before,), short),
        call_ensures(Escape::fmt, (after,), long),
    ensures
        empty@ == seq!['b', '"', '"'],
        short@.len() >= 3,
        short@.last() == '"',
        long@ == short@.drop_last() + (if byte == 10 {
            seq!['\\', 'n']
        } else if byte == 13 {
            seq!['\\', 'r']
        } else if byte == 9 {
            seq!['\\', 't']
        } else if byte == 0 {
            seq!['\\', '0']
        } else if byte == 92 {
            seq!['\\', '\\']
        } else if byte == 34 {
            seq!['\\', '"']
        } else if 32 <= byte <= 126 {
            seq![byte as char]
        } else {
            seq![
                '\\',
                'x',
                "0123456789abcdef"@[byte as int / 16],
                "0123456789abcdef"@[byte as int % 16],
            ]
        }).push('"'),
{
    escapes_append(before.0@, byte);
    reveal_with_fuel(hex_digits, 3);
    digits_are_from_the_table((byte as nat) / 16 % 16);
    digits_are_from_the_table((byte as nat) % 16);
    assert(empty@ =~= seq!['b', '"', '"']);
    assert(short@.drop_last() =~= seq!['b', '"'] + escape_bytes(before.0@));
    assert(hex_digits(byte as nat, 2) =~= seq![
        hex_digit((byte as nat) / 16 % 16),
        hex_digit((byte as nat) % 16),
    ]);
    assert(long@ =~= short@.drop_last() + escape_byte(byte).push('"'));
    if byte == 92 {
        assert(byte as char == '\\');
    }
    if byte == 34 {
        assert(byte as char == '"');
    }
    assert(escape_byte(byte) =~= (if byte == 10 {
        seq!['\\', 'n']
    } else if byte == 13 {
        seq!['\\', 'r']
    } else if byte == 9 {
        seq!['\\', 't']
    } else if byte == 0 {
        seq!['\\', '0']
    } else if byte == 92 {
        seq!['\\', '\\']
    } else if byte == 34 {
        seq!['\\', '"']
    } else if 32 <= byte <= 126 {
        seq![byte as char]
    } else {
        seq![
            '\\',
            'x',
            "0123456789abcdef"@[byte as int / 16],
            "0123456789abcdef"@[byte as int % 16],
        ]
    }));
}

proof fn escapes_append(bytes: Seq<u8>, byte: u8)
    ensures
        escape_bytes(bytes.push(byte)) == escape_bytes(bytes) + escape_byte(byte),
    decreases bytes.len(),
{
    let more = bytes.push(byte);
    if bytes.len() == 0 {
        let none = Seq::<u8>::empty();
        assert(more.drop_first() =~= none);
        assert(escape_bytes(none) =~= Seq::<char>::empty());
        assert(escape_bytes(more) == escape_byte(byte) + escape_bytes(none));
        assert(escape_bytes(more) =~= escape_bytes(bytes) + escape_byte(byte));
    } else {
        let rest = bytes.drop_first();
        escapes_append(rest, byte);
        assert(more[0] == bytes[0]);
        assert(more.drop_first() =~= rest.push(byte));
        assert(escape_bytes(more) == escape_byte(bytes[0]) + escape_bytes(rest.push(byte)));
        assert(escape_bytes(more) =~= escape_bytes(bytes) + escape_byte(byte));
    }
}

/// Each digit is the one at its place in the list of all.
pub(crate) proof fn digits_are_from_the_table(n: nat)
    requires
        n < 16,
    ensures
        hex_digit(n) == "0123456789abcdef"@[n as int],
{
    reveal_strlit("0123456789abcdef");
}

/// No digits add nothing; one digit more than some is what these are for a sixteenth
/// of the number, and then the digit for the rest.
pub proof fn numbers_grow_by_one_digit(
    none: &mut String,
    fewer: &mut String,
    more: &mut String,
    n: u32,
    width: u32,
)
    requires
        width < u32::MAX,
        old(more)@ == old(fewer)@,
        call_ensures(push_hex, (none, n, 0), ()),
        call_ensures(push_hex, (fewer, n / 16, width), ()),
        call_ensures(push_hex, (more, n, (width + 1) as u32), ()),
    ensures
        final(none)@ == old(none)@,
        final(more)@ == final(fewer)@.push("0123456789abcdef"@[n as int % 16]),
        final(fewer)@.len() == old(fewer)@.len() + width,
{
    digits_are_from_the_table(n as nat % 16);
    hex_digits_are_printable((n / 16) as nat, width as nat);
    assert(hex_digits(n as nat, 0) =~= Seq::<char>::empty());
    assert(final(none)@ =~= old(none)@);
    assert(final(more)@ =~= final(fewer)@.push("0123456789abcdef"@[n as int % 16]));
}

} // verus!
