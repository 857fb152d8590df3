//! Integers written in decimal, as `ToString` writes them.

use vstd::prelude::*;

verus! {

/// The character of the decimal digit `d` (`0 <= d < 10`).
pub open spec fn digit_char(d: int) -> char {
    if d == 0 {
        '0'
    } else if d == 1 {
        '1'
    } else if d == 2 {
        '2'
    } else if d == 3 {
        '3'
    } else if d == 4 {
        '4'
    } else if d == 5 {
        '5'
    } else if d == 6 {
        '6'
    } else if d == 7 {
        '7'
    } else if d == 8 {
        '8'
    } else {
        '9'
    }
}

/// The decimal digits of `n`, most significant first, with no leading zero.
pub open spec fn decimal_digits(n: nat) -> Seq<char>
    decreases n,
{
    if n < 10 {
        seq![digit_char(n as int)]
    } else {
        decimal_digits(n / 10).push(digit_char((n % 10) as int))
    }
}

/// The decimal text of `n`: its digits, after a `-` when `n` is negative.
pub open spec fn decimal(n: int) -> Seq<char> {
    if n < 0 {
        seq!['-'] + decimal_digits((-n) as nat)
    } else {
        decimal_digits(n as nat)
    }
}

fn digit(d: u128) -> (c: char)
    requires
        d < 10,
    ensures
        c == digit_char(d as int),
{
    if d == 0 {
        '0'
    } else if d == 1 {
        '1'
    } else if d == 2 {
        '2'
    } else if d == 3 {
        '3'
    } else if d == 4 {
        '4'
    } else if d == 5 {
        '5'
    } else if d == 6 {
        '6'
    } else if d == 7 {
        '7'
    } else if d == 8 {
        '8'
    } else {
        '9'
    }
}

/// Appends the decimal digits of `n` to `out`.
pub fn write_unsigned(out: &mut String, n: u128)
    ensures
        final(out)@ == old(out)@ + decimal_digits(n as nat),
    decreases n,
{
    if n >= 10 {
        write_unsigned(out, n / 10);
    }
    out.push(digit(n % 10));
    proof {
        assert(out@ =~= old(out)@ + decimal_digits(n as nat));
    }
}

/// Appends the decimal text of `n` to `out`.
pub fn write_signed(out: &mut String, n: i128)
    ensures
        final(out)@ == old(out)@ + decimal(n as int),
{
    if n < 0 {
        out.push('-');
        let magnitude: u128 = (-(n + 1)) as u128 + 1;
        write_unsigned(out, magnitude);
        proof {
            assert(out@ =~= old(out)@ + decimal(n as int));
        }
    } else {
        write_unsigned(out, n as u128);
    }
}

/// A character among `0` to `9`.
pub open spec fn is_digit(c: char) -> bool {
    '0' <= c && c <= '9'
}

/// The number a digit character stands for.
pub open spec fn digit_value(c: char) -> int {
    (c as u32) - ('0' as u32)
}

/// The number that a text of digits stands for, read in base ten.
pub open spec fn digits_value(s: Seq<char>) -> int
    decreases s.len(),
{
    if s.len() == 0 {
        0
    } else {
        digits_value(s.drop_last()) * 10 + digit_value(s.last())
    }
}

/// The digit character of `d` is a digit that stands for `d`.
proof fn lemma_digit_char(d: int)
    requires
        0 <= d < 10,
    ensures
        is_digit(digit_char(d)),
        digit_value(digit_char(d)) == d,
{
}

/// `decimal_digits(n)` is the base-ten text of `n`: a non-empty run of digits
/// that reads back as `n`, with no leading zero unless `n` is zero.
pub proof fn lemma_decimal_digits_meaning(n: nat)
    ensures
        decimal_digits(n).len() > 0,
        forall|i: int| 0 <= i < decimal_digits(n).len() ==> is_digit(#[trigger] decimal_digits(n)[i]),
        digits_value(decimal_digits(n)) == n,
        decimal_digits(n)[0] == '0' ==> n == 0,
    decreases n,
{
    if n < 10 {
        lemma_digit_char(n as int);
        let ds = decimal_digits(n);
        assert(ds.drop_last() =~= Seq::<char>::empty());
        assert(digits_value(ds.drop_last()) == 0);
        assert(ds.last() == digit_char(n as int));
        assert(digits_value(ds) == digits_value(ds.drop_last()) * 10 + digit_value(ds.last()));
    } else {
        let q = n / 10;
        let r = n % 10;
        lemma_decimal_digits_meaning(q);
        lemma_digit_char(r as int);
        let ds = decimal_digits(n);
        assert(ds.drop_last() =~= decimal_digits(q));
        assert(ds.last() == digit_char(r as int));
        assert(digits_value(ds) == digits_value(decimal_digits(q)) * 10 + r);
        assert(n == q * 10 + r);
        assert(q > 0);
    }
}

/// `decimal(n)` is the signed base-ten text of `n`: a `-` exactly when `n` is
/// negative, followed by the base-ten text of the magnitude of `n`.
pub proof fn lemma_decimal_meaning(n: int)
    ensures
        decimal(n).len() > 0,
        (decimal(n)[0] == '-') <==> n < 0,
        n < 0 ==> digits_value(decimal(n).drop_first()) == -n,
        n < 0 ==> forall|i: int|
            0 <= i < decimal(n).drop_first().len() ==> is_digit(#[trigger] decimal(n).drop_first()[i]),
        n >= 0 ==> digits_value(decimal(n)) == n,
        n >= 0 ==> forall|i: int| 0 <= i < decimal(n).len() ==> is_digit(#[trigger] decimal(n)[i]),
{
    if n < 0 {
        lemma_decimal_digits_meaning((-n) as nat);
        assert(decimal(n).drop_first() =~= decimal_digits((-n) as nat));
    } else {
        lemma_decimal_digits_meaning(n as nat);
        assert(is_digit(decimal(n)[0]));
    }
}

} // verus!
