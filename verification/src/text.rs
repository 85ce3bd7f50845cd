//! Bytes and digits: the small pieces that messages are put together from.
use vstd::prelude::*;
use vstd::utf8::encode_utf8;

verus! {

/// The decimal digits of `n` in ASCII, without leading zeros.
pub open spec fn decimal(n: nat) -> Seq<u8>
    decreases n,
{
    if n < 10 {
        seq![(48 + n) as u8]
    } else {
        decimal(n / 10).push((48 + n % 10) as u8)
    }
}

/// Appends the decimal digits of `n`.
pub fn push_decimal(buf: &mut Vec<u8>, n: u16)
    ensures
        final(buf)@ == old(buf)@ + decimal(n as nat),
    decreases n,
{
    if n >= 10 {
        push_decimal(buf, n / 10);
    }
    buf.push(48 + (n % 10) as u8);
}

/// Appends a text in UTF-8.
pub fn push_text(buf: &mut Vec<u8>, text: &str)
    ensures
        final(buf)@ == old(buf)@ + encode_utf8(text@),
{
    push_bytes(buf, text.as_bytes());
}

/// Appends bytes.
pub fn push_bytes(buf: &mut Vec<u8>, bytes: &[u8])
    ensures
        final(buf)@ == old(buf)@ + bytes@,
{
    buf.extend_from_slice(bytes);
    assert(buf@ =~= old(buf)@ + bytes@);
}

/// Whether `data` begins with `prefix`.
pub fn starts_with(data: &[u8], prefix: &[u8]) -> (r: bool)
    ensures
        r == prefix@.is_prefix_of(data@),
{
    if data.len() < prefix.len() {
        return false;
    }
    let n: usize = prefix.len();
    let mut i: usize = 0;
    while i < n
        invariant
            n == prefix@.len() <= data@.len(),
            i <= n,
            forall|j: int| 0 <= j < i ==> data@[j] == prefix@[j],
        decreases n - i,
    {
        if data[i] != prefix[i] {
            assert(data@.subrange(0, n as int)[i as int] != prefix@[i as int]);
            return false;
        }
        i = i + 1;
    }
    assert(data@.subrange(0, n as int) =~= prefix@);
    true
}

/// Whether `data` ends with `suffix`.
pub fn ends_with(data: &[u8], suffix: &[u8]) -> (r: bool)
    ensures
        r == suffix@.is_suffix_of(data@),
{
    if data.len() < suffix.len() {
        return false;
    }
    let n: usize = suffix.len();
    let start: usize = data.len() - n;
    let mut i: usize = 0;
    while i < n
        invariant
            n == suffix@.len(),
            start + n == data@.len() == data.len(),
            i <= n,
            forall|j: int| 0 <= j < i ==> data@[start + j] == suffix@[j],
        decreases n - i,
    {
        if data[start + i] != suffix[i] {
            assert(data@.subrange(start as int, data@.len() as int)[i as int] != suffix@[i as int]);
            return false;
        }
        i = i + 1;
    }
    assert(data@.subrange(start as int, data@.len() as int) =~= suffix@);
    true
}

/// A number is written in as many digits as it has, from the first that is not zero
/// to the last, and is appended to what is there.
pub proof fn numbers_are_written_in_digits(buf: &mut Vec<u8>, n: u16)
    requires
        call_ensures(push_decimal, (buf, n), ()),
    ensures
        final(buf)@ == old(buf)@ + (if n < 10 {
            seq![(48 + n) as u8]
        } else if n < 100 {
            seq![(48 + n / 10) as u8, (48 + n % 10) as u8]
        } else if n < 1000 {
            seq![(48 + n / 100) as u8, (48 + n / 10 % 10) as u8, (48 + n % 10) as u8]
        } else if n < 10000 {
            seq![
                (48 + n / 1000) as u8,
                (48 + n / 100 % 10) as u8,
                (48 + n / 10 % 10) as u8,
                (48 + n % 10) as u8,
            ]
        } else {
            seq![
                (48 + n / 10000) as u8,
                (48 + n / 1000 % 10) as u8,
                (48 + n / 100 % 10) as u8,
                (48 + n / 10 % 10) as u8,
                (48 + n % 10) as u8,
            ]
        }),
{
    reveal_with_fuel(decimal, 5);
    let m = n as nat;
    assert(m / 10 / 10 == m / 100);
    assert(m / 100 / 10 == m / 1000);
    assert(m / 1000 / 10 == m / 10000);
    let digits = decimal(m);
    if n < 10 {
        assert(digits =~= seq![(48 + n) as u8]);
    } else if n < 100 {
        assert(digits =~= seq![(48 + n / 10) as u8, (48 + n % 10) as u8]);
    } else if n < 1000 {
        assert(digits =~= seq![
            (48 + n / 100) as u8,
            (48 + n / 10 % 10) as u8,
            (48 + n % 10) as u8,
        ]);
    } else if n < 10000 {
        assert(digits =~= seq![
            (48 + n / 1000) as u8,
            (48 + n / 100 % 10) as u8,
            (48 + n / 10 % 10) as u8,
            (48 + n % 10) as u8,
        ]);
    } else {
        assert(digits =~= seq![
            (48 + n / 10000) as u8,
            (48 + n / 1000 % 10) as u8,
            (48 + n / 100 % 10) as u8,
            (48 + n / 10 % 10) as u8,
            (48 + n % 10) as u8,
        ]);
    }
}

} // verus!
