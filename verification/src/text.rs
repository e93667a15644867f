//! Building text for diagnostics: hex and decimal digits.
use vstd::prelude::*;

verus! {

/// The hex digit for a value below 16, upper or lower case.
pub open spec fn hex_digit(v: u8, upper: bool) -> char
    recommends
        v < 16,
{
    if v < 10 {
        ((v as int) + 48) as char
    } else if upper {
        ((v as int) + 55) as char
    } else {
        ((v as int) + 87) as char
    }
}

/// Two hex digits of a byte, most significant first.
pub open spec fn hex2(b: u8, upper: bool) -> Seq<char> {
    seq![hex_digit(b / 16, upper), hex_digit(b % 16, upper)]
}

/// The decimal digits of `n`, most significant first, with no leading zeros.
pub open spec fn decimal(n: nat) -> Seq<char>
    decreases n,
{
    if n < 10 {
        seq![((n as int) + 48) as char]
    } else {
        decimal(n / 10).push(((n % 10) as int + 48) as char)
    }
}

/// Appends one character to a string.
///
/// Trusted: `String::push`, which appends the character at the end.
#[verifier::external_body]
pub(crate) fn push_char(s: &mut String, c: char)
    ensures
        final(s)@ == old(s)@.push(c),
{
    s.push(c);
}

/// The hex digit for `v`.
pub fn hex_digit_char(v: u8, upper: bool) -> (c: char)
    requires
        v < 16,
    ensures
        c == hex_digit(v, upper),
{
    if v < 10 {
        (v + 48) as char
    } else if upper {
        (v + 55) as char
    } else {
        (v + 87) as char
    }
}

/// Appends the two hex digits of `b`.
pub fn push_hex2(s: &mut String, b: u8, upper: bool)
    ensures
        final(s)@ == old(s)@ + hex2(b, upper),
{
    push_char(s, hex_digit_char(b / 16, upper));
    push_char(s, hex_digit_char(b % 16, upper));
}

/// Appends the decimal digits of `n`.
pub fn push_decimal(s: &mut String, n: u64)
    ensures
        final(s)@ == old(s)@ + decimal(n as nat),
    decreases n,
{
    if n >= 10 {
        push_decimal(s, n / 10);
    }
    let d: u8 = (n % 10) as u8;
    push_char(s, (d + 48) as char);
    proof {
        if n >= 10 {
            assert(decimal(n as nat) == decimal((n / 10) as nat).push(((n % 10) as int + 48) as char));
        }
    }
}


/// The characters of a string slice, in order.
pub fn chars_of(s: &str) -> (res: Vec<char>)
    ensures
        res@ == s@,
{
    let mut out: Vec<char> = Vec::new();
    for c in it: s.chars()
        invariant
            it.seq() == s@,
            out@ == s@.take(it.index() as int),
    {
        proof {
            assert(s@.take(it.index() + 1) =~= out@.push(c));
        }
        out.push(c);
    }
    assert(s@.take(s@.len() as int) =~= s@);
    out
}


/// Lower-case hex digits of a byte without leading zeros.
pub open spec fn hex_min(b: u8) -> Seq<char> {
    if b < 16 {
        seq![hex_digit(b, false)]
    } else {
        hex2(b, false)
    }
}

/// Appends the lower-case hex digits of `b` without leading zeros.
pub fn push_hex_min(s: &mut String, b: u8)
    ensures
        final(s)@ == old(s)@ + hex_min(b),
{
    if b < 16 {
        push_char(s, hex_digit_char(b, false));
    } else {
        push_hex2(s, b, false);
    }
}

} // verus!
