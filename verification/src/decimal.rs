//! Decimal rendering of natural numbers as ASCII bytes.

use vstd::prelude::*;

verus! {

/// The ASCII byte of the decimal digit `d`.
pub open spec fn digit_byte(d: nat) -> u8
    recommends
        d < 10,
{
    (48 + d) as u8
}

/// Whether `b` is one of the ASCII bytes `0` to `9`.
pub open spec fn is_digit(b: u8) -> bool {
    48 <= b <= 57
}

/// The decimal literal of `n`: most significant digit first, no padding.
pub open spec fn decimal(n: nat) -> Seq<u8>
    decreases n,
{
    if n < 10 {
        seq![digit_byte(n)]
    } else {
        decimal(n / 10).push(digit_byte(n % 10))
    }
}

/// Whether every byte of `s` is a decimal digit.
pub open spec fn all_digits(s: Seq<u8>) -> bool {
    forall|i: int| 0 <= i < s.len() ==> is_digit(#[trigger] s[i])
}

/// The number that a sequence of digit bytes denotes, read most significant
/// digit first.
pub open spec fn decimal_value(s: Seq<u8>) -> nat
    decreases s.len(),
{
    if s.len() == 0 {
        0
    } else {
        (decimal_value(s.drop_last()) * 10 + (s.last() - 48)) as nat
    }
}

/// A decimal literal is never empty and holds digits only.
pub proof fn lemma_decimal_is_digits(n: nat)
    ensures
        decimal(n).len() >= 1,
        all_digits(decimal(n)),
    decreases n,
{
    if n >= 10 {
        lemma_decimal_is_digits(n / 10);
    }
}

/// A decimal literal has as many digits as its number needs: one below 10,
/// two below 100, and so on up to five.
pub proof fn lemma_decimal_len(n: nat)
    ensures
        n < 10 ==> decimal(n).len() == 1,
        10 <= n < 100 ==> decimal(n).len() == 2,
        100 <= n < 1000 ==> decimal(n).len() == 3,
        1000 <= n < 10000 ==> decimal(n).len() == 4,
        10000 <= n < 100000 ==> decimal(n).len() == 5,
{
    reveal_with_fuel(decimal, 5);
}

/// A decimal literal starts with `0` only where the number is zero.
pub proof fn lemma_decimal_no_leading_zero(n: nat)
    ensures
        decimal(n)[0] == digit_byte(0) <==> n == 0,
    decreases n,
{
    if n >= 10 {
        lemma_decimal_no_leading_zero(n / 10);
        lemma_decimal_is_digits(n / 10);
    }
}

/// Reading a decimal literal gives the number back.
pub proof fn lemma_decimal_value(n: nat)
    ensures
        decimal_value(decimal(n)) == n,
    decreases n,
{
    if n < 10 {
        assert(decimal(n).drop_last() =~= Seq::<u8>::empty());
        assert(decimal_value(decimal(n).drop_last()) == 0);
    } else {
        lemma_decimal_value(n / 10);
        assert(decimal(n).drop_last() =~= decimal(n / 10));
    }
}

/// Different numbers have different decimal literals.
pub proof fn lemma_decimal_injective(a: nat, b: nat)
    requires
        decimal(a) == decimal(b),
    ensures
        a == b,
{
    lemma_decimal_value(a);
    lemma_decimal_value(b);
}

/// Appends the decimal literal of `n` to `out`.
pub fn push_decimal(out: &mut Vec<u8>, n: u64)
    ensures
        final(out)@ == old(out)@ + decimal(n as nat),
    decreases n,
{
    if n < 10 {
        out.push(48u8 + (n as u8));
        assert(out@ =~= old(out)@ + decimal(n as nat));
    } else {
        push_decimal(out, n / 10);
        out.push(48u8 + ((n % 10) as u8));
        assert(out@ =~= old(out)@ + decimal(n as nat));
    }
}

/// The decimal literal of `n` as a fresh byte vector.
pub fn decimal_bytes(n: u64) -> (out: Vec<u8>)
    ensures
        out@ == decimal(n as nat),
{
    let mut out: Vec<u8> = Vec::new();
    push_decimal(&mut out, n);
    out
}

} // verus!
