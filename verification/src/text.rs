//! Decimal and hexadecimal text of numbers, as the standard formatter
//! writes them with `{}` and `{:#x}`.

use vstd::prelude::*;
use vstd::string::*;

verus! {

/// The character of the digit `d`: `0` to `9`, then `a` to `f`.
pub open spec fn digit_char(d: nat) -> char {
    if d < 10 {
        (48 + d) as char
    } else {
        (87 + d) as char
    }
}

/// The decimal digits of `n`, most significant first, without leading zeros.
pub open spec fn decimal_digits(n: nat) -> Seq<char>
    decreases n,
{
    if n < 10 {
        seq![digit_char(n)]
    } else {
        decimal_digits(n / 10).push(digit_char(n % 10))
    }
}

/// The lower-case hexadecimal digits of `n`, most significant first,
/// without leading zeros.
pub open spec fn hex_digits(n: nat) -> Seq<char>
    decreases n,
{
    if n < 16 {
        seq![digit_char(n)]
    } else {
        hex_digits(n / 16).push(digit_char(n % 16))
    }
}

/// `n` in hexadecimal with the `0x` prefix.
pub open spec fn hex_text(n: nat) -> Seq<char> {
    seq!['0', 'x'] + hex_digits(n)
}

/// The one-character text of the digit `d`.
fn digit_str(d: usize) -> (r: &'static str)
    requires
        d < 16,
    ensures
        r@ == seq![digit_char(d as nat)],
{
    if d == 0 {
        proof { reveal_strlit("0"); }
        "0"
    } else if d == 1 {
        proof { reveal_strlit("1"); }
        "1"
    } else if d == 2 {
        proof { reveal_strlit("2"); }
        "2"
    } else if d == 3 {
        proof { reveal_strlit("3"); }
        "3"
    } else if d == 4 {
        proof { reveal_strlit("4"); }
        "4"
    } else if d == 5 {
        proof { reveal_strlit("5"); }
        "5"
    } else if d == 6 {
        proof { reveal_strlit("6"); }
        "6"
    } else if d == 7 {
        proof { reveal_strlit("7"); }
        "7"
    } else if d == 8 {
        proof { reveal_strlit("8"); }
        "8"
    } else if d == 9 {
        proof { reveal_strlit("9"); }
        "9"
    } else if d == 10 {
        proof { reveal_strlit("a"); }
        "a"
    } else if d == 11 {
        proof { reveal_strlit("b"); }
        "b"
    } else if d == 12 {
        proof { reveal_strlit("c"); }
        "c"
    } else if d == 13 {
        proof { reveal_strlit("d"); }
        "d"
    } else if d == 14 {
        proof { reveal_strlit("e"); }
        "e"
    } else {
        proof { reveal_strlit("f"); }
        "f"
    }
}

/// Appends the decimal digits of `n` to `s`.
pub(crate) fn push_decimal(s: &mut String, n: usize)
    ensures
        final(s)@ == old(s)@ + decimal_digits(n as nat),
    decreases n,
{
    let ghost s0 = s@;
    if n >= 10 {
        push_decimal(s, n / 10);
    }
    let d = digit_str(n % 10);
    s.append(d);
    proof {
        if n >= 10 {
            assert(s0 + decimal_digits(n as nat) =~= s0 + decimal_digits((n / 10) as nat) + d@);
        } else {
            assert(s0 + decimal_digits(n as nat) =~= s0 + d@);
        }
    }
}

/// Appends the hexadecimal digits of `n` to `s`.
fn push_hex_digits(s: &mut String, n: usize)
    ensures
        final(s)@ == old(s)@ + hex_digits(n as nat),
    decreases n,
{
    let ghost s0 = s@;
    if n >= 16 {
        push_hex_digits(s, n / 16);
    }
    let d = digit_str(n % 16);
    s.append(d);
    proof {
        if n >= 16 {
            assert(s0 + hex_digits(n as nat) =~= s0 + hex_digits((n / 16) as nat) + d@);
        } else {
            assert(s0 + hex_digits(n as nat) =~= s0 + d@);
        }
    }
}

/// Appends `n` in hexadecimal, with the `0x` prefix, to `s`.
pub(crate) fn push_hex(s: &mut String, n: usize)
    ensures
        final(s)@ == old(s)@ + hex_text(n as nat),
{
    let ghost s0 = s@;
    proof { reveal_strlit("0x"); }
    s.append("0x");
    push_hex_digits(s, n);
    assert(s@ =~= s0 + hex_text(n as nat));
}

} // verus!
