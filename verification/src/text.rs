//! The lexical form of numbers: decimal digits as bytes.

use vstd::prelude::*;

verus! {

/// The byte of one decimal digit.
pub open spec fn digit(d: int) -> u8 {
    (0x30 + d) as u8
}

/// The decimal digits of `n`, without leading zeros; `0` is one digit.
pub open spec fn decimal_digits(n: nat) -> Seq<u8>
    decreases n,
{
    if n < 10 {
        seq![digit(n as int)]
    } else {
        decimal_digits(n / 10).push(digit((n % 10) as int))
    }
}

/// The decimal form of `v`: a minus sign where it is negative, then the
/// digits of its magnitude.
pub open spec fn decimal_text(v: int) -> Seq<u8> {
    if v < 0 {
        seq![0x2du8] + decimal_digits((-v) as nat)
    } else {
        decimal_digits(v as nat)
    }
}

/// The last `width` decimal digits of `n`, with leading zeros.
pub open spec fn fixed_digits(n: nat, width: nat) -> Seq<u8>
    decreases width,
{
    if width == 0 {
        Seq::<u8>::empty()
    } else {
        fixed_digits(n / 10, (width - 1) as nat).push(digit((n % 10) as int))
    }
}

/// Whether `b` is the byte of a decimal digit.
pub open spec fn is_digit(b: u8) -> bool {
    0x30 <= b <= 0x39
}

/// The number that a run of decimal digits denotes.
pub open spec fn digits_value(s: Seq<u8>) -> nat
    decreases s.len(),
{
    if s.len() == 0 {
        0
    } else {
        (digits_value(s.drop_last()) * 10 + (s.last() - 0x30)) as nat
    }
}

/// Whether every byte of `s` is a decimal digit.
pub open spec fn all_digits(s: Seq<u8>) -> bool {
    forall|i: int| 0 <= i < s.len() ==> is_digit(#[trigger] s[i])
}

/// The integer that a decimal text denotes: an optional minus sign and at
/// least one digit.
pub open spec fn parse_decimal(s: Seq<u8>) -> Option<int> {
    if s.len() > 0 && s[0] == 0x2d {
        let rest = s.subrange(1, s.len() as int);
        if rest.len() > 0 && all_digits(rest) {
            Some(-(digits_value(rest) as int))
        } else {
            None
        }
    } else if s.len() > 0 && all_digits(s) {
        Some(digits_value(s) as int)
    } else {
        None
    }
}

/// The digits of a number are digits, at least one of them, and denote the
/// number.
pub proof fn lemma_decimal_digits(n: nat)
    ensures
        decimal_digits(n).len() >= 1,
        all_digits(decimal_digits(n)),
        digits_value(decimal_digits(n)) == n,
    decreases n,
{
    if n < 10 {
        let s = decimal_digits(n);
        assert(s.drop_last() =~= Seq::<u8>::empty());
        assert(digits_value(s.drop_last()) == 0);
    } else {
        lemma_decimal_digits(n / 10);
        let s = decimal_digits(n);
        assert(s.drop_last() =~= decimal_digits(n / 10));
        assert forall|i: int| 0 <= i < s.len() implies is_digit(#[trigger] s[i]) by {
            if i < s.len() - 1 {
                assert(s[i] == decimal_digits(n / 10)[i]);
            }
        }
    }
}

/// Ten to the power of `width`.
pub open spec fn ten_to(width: nat) -> nat
    decreases width,
{
    if width == 0 {
        1
    } else {
        10 * ten_to((width - 1) as nat)
    }
}

/// A fixed-width field has its width, holds digits only, and denotes the
/// number where the number fits the width.
pub proof fn lemma_fixed_digits(n: nat, width: nat)
    ensures
        fixed_digits(n, width).len() == width,
        all_digits(fixed_digits(n, width)),
        n < ten_to(width) ==> digits_value(fixed_digits(n, width)) == n,
    decreases width,
{
    if width > 0 {
        lemma_fixed_digits(n / 10, (width - 1) as nat);
        let s = fixed_digits(n, width);
        assert(s.drop_last() =~= fixed_digits(n / 10, (width - 1) as nat));
        assert forall|i: int| 0 <= i < s.len() implies is_digit(#[trigger] s[i]) by {
            if i < s.len() - 1 {
                assert(s[i] == fixed_digits(n / 10, (width - 1) as nat)[i]);
            }
        }
    }
}

/// Reading the decimal form of an integer gives the integer.
pub proof fn lemma_decimal_round_trip(v: int)
    ensures
        parse_decimal(decimal_text(v)) == Some(v),
{
    if v < 0 {
        let d = decimal_digits((-v) as nat);
        lemma_decimal_digits((-v) as nat);
        let s = decimal_text(v);
        assert(s.subrange(1, s.len() as int) =~= d);
    } else {
        lemma_decimal_digits(v as nat);
        assert(is_digit(decimal_digits(v as nat)[0]));
    }
}

/// Appends the decimal digits of `n` to `out`.
pub fn push_decimal_digits(out: &mut Vec<u8>, n: u64)
    ensures
        final(out)@ == old(out)@ + decimal_digits(n as nat),
    decreases n,
{
    if n >= 10 {
        push_decimal_digits(out, n / 10);
    }
    out.push(0x30u8 + (n % 10) as u8);
    assert(out@ =~= old(out)@ + decimal_digits(n as nat));
}

/// Appends the last `width` decimal digits of `n`, with leading zeros, to
/// `out`.
pub fn push_fixed_digits(out: &mut Vec<u8>, n: u64, width: u8)
    ensures
        final(out)@ == old(out)@ + fixed_digits(n as nat, width as nat),
    decreases width,
{
    if width > 0 {
        push_fixed_digits(out, n / 10, width - 1);
        out.push(0x30u8 + (n % 10) as u8);
    }
    assert(out@ =~= old(out)@ + fixed_digits(n as nat, width as nat));
}

/// The magnitude of `v`.
pub fn magnitude(v: i64) -> (m: u64)
    ensures
        m == if v < 0 {
            -v
        } else {
            v as int
        },
{
    if v < 0 {
        ((-(v + 1)) as u64) + 1
    } else {
        v as u64
    }
}

/// Appends the decimal form of `v` to `out`.
pub fn push_decimal(out: &mut Vec<u8>, v: i64)
    ensures
        final(out)@ == old(out)@ + decimal_text(v as int),
{
    if v < 0 {
        out.push(0x2du8);
    }
    push_decimal_digits(out, magnitude(v));
    assert(out@ =~= old(out)@ + decimal_text(v as int));
}

} // verus!
