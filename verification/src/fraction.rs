//! Fractions of an amount: parts per million and per cent, as `sp_arithmetic`
//! computes them.

use vstd::prelude::*;
use crate::types::Balance;

verus! {

/// The denominator of a fraction given in parts per million.
pub const MILLION: u32 = 1_000_000;

/// The denominator of a fraction given in per cent.
pub const HUNDRED: u8 = 100;

/// `parts / whole` of `amount`, rounded to the nearest integer; an exact half
/// is rounded down. `parts` above `whole` count as `whole`.
pub open spec fn share(parts: int, whole: int, amount: int) -> int {
    let p = if parts > whole { whole } else { parts };
    let exact = p * amount;
    if exact % whole > whole / 2 {
        exact / whole + 1
    } else {
        exact / whole
    }
}

/// `sp_arithmetic::Permill::from_parts(parts) * amount`.
///
/// Trusted: the product is `share(parts, 1_000_000, amount)`. `from_parts` caps
/// `parts` at one million; the multiplication works on quotient and remainder of
/// `amount` by one million, so that nothing overflows, and rounds the remainder's
/// part to the nearest integer, an exact half down.
#[verifier::external_body]
pub(crate) fn permill_of(parts: u32, amount: Balance) -> (r: Balance)
    ensures
        r == share(parts as int, MILLION as int, amount as int),
{
    sp_arithmetic::Permill::from_parts(parts) * amount
}

/// `sp_arithmetic::Percent::from_parts(parts) * amount`.
///
/// Trusted: the product is `share(parts, 100, amount)`, computed and rounded as
/// for parts per million.
#[verifier::external_body]
pub(crate) fn percent_of(parts: u8, amount: Balance) -> (r: Balance)
    ensures
        r == share(parts as int, HUNDRED as int, amount as int),
{
    sp_arithmetic::Percent::from_parts(parts) * amount
}

/// A share never exceeds the amount it is taken of.
pub proof fn lemma_share_bounded(parts: int, whole: int, amount: int)
    requires
        0 <= parts,
        0 < whole,
        0 <= amount,
    ensures
        0 <= share(parts, whole, amount) <= amount,
{
    let p = if parts > whole { whole } else { parts };
    let exact = p * amount;
    assert(0 <= exact <= whole * amount) by (nonlinear_arith)
        requires 0 <= p <= whole, 0 <= amount, exact == p * amount;
    assert(0 <= exact / whole) by (nonlinear_arith)
        requires 0 <= exact, 0 < whole;
    if exact == whole * amount {
        assert(exact % whole == 0 && exact / whole == amount) by (nonlinear_arith)
            requires exact == whole * amount, 0 < whole;
    } else {
        assert(exact / whole < amount) by (nonlinear_arith)
            requires 0 <= exact < whole * amount, 0 < whole;
    }
}

/// A share grows with the amount.
pub proof fn lemma_share_monotonic(parts: int, whole: int, a: int, b: int)
    requires
        0 <= parts,
        0 < whole,
        0 <= a <= b,
    ensures
        share(parts, whole, a) <= share(parts, whole, b),
{
    let p = if parts > whole { whole } else { parts };
    let ea = p * a;
    let eb = p * b;
    assert(0 <= ea <= eb) by (nonlinear_arith)
        requires 0 <= p, 0 <= a <= b, ea == p * a, eb == p * b;
    // ea = qa*w + ra, eb = qb*w + rb
    let qa = ea / whole;
    let qb = eb / whole;
    let ra = ea % whole;
    let rb = eb % whole;
    assert(ea == qa * whole + ra && 0 <= ra < whole) by (nonlinear_arith)
        requires qa == ea / whole, ra == ea % whole, 0 < whole;
    assert(eb == qb * whole + rb && 0 <= rb < whole) by (nonlinear_arith)
        requires qb == eb / whole, rb == eb % whole, 0 < whole;
    assert(qa <= qb) by (nonlinear_arith)
        requires ea <= eb, ea == qa * whole + ra, eb == qb * whole + rb,
            0 <= ra < whole, 0 <= rb < whole, 0 < whole;
}

/// Where `parts * amount` is a multiple of `whole`, the share is the exact
/// quotient: shares are linear on such amounts.
pub proof fn lemma_share_exact(parts: int, whole: int, amount: int, k: int)
    requires
        0 <= parts <= whole,
        0 < whole,
        0 <= amount,
        parts * amount == k * whole,
    ensures
        share(parts, whole, amount) == k,
{
    let exact = parts * amount;
    assert(exact % whole == 0 && exact / whole == k) by (nonlinear_arith)
        requires exact == k * whole, 0 < whole;
}

} // verus!
