//! Truncating integer division.
//!
//! The formulas of this library are stated over exact rationals and then
//! truncated toward zero, as a cast from a wider value to an integer would
//! truncate.  In specifications `/` on `int` is Euclidean division, which
//! rounds toward negative infinity instead, so the truncating quotient is
//! defined here once and shared by every component.

use vstd::prelude::*;

verus! {

/// Quotient of `a` by `b` rounded toward zero (`b` is expected positive).
///
/// Agrees with Euclidean `a / b` for `a >= 0`; for negative `a` it is the
/// negated quotient of the magnitudes.
pub open spec fn div_trunc(a: int, b: int) -> int
    recommends
        b > 0,
{
    if a >= 0 {
        a / b
    } else {
        -((-a) / b)
    }
}

/// The truncating quotient lies between zero and the dividend.
pub proof fn lemma_div_trunc_bounds(a: int, b: int)
    requires
        b >= 1,
    ensures
        a >= 0 ==> 0 <= div_trunc(a, b) <= a,
        a < 0 ==> a <= div_trunc(a, b) <= 0,
{
    if a >= 0 {
        vstd::arithmetic::div_mod::lemma_div_pos_is_pos(a, b);
        vstd::arithmetic::div_mod::lemma_div_nonincreasing(a, b);
    } else {
        vstd::arithmetic::div_mod::lemma_div_pos_is_pos(-a, b);
        vstd::arithmetic::div_mod::lemma_div_nonincreasing(-a, b);
    }
}

/// A product is bounded by the product of bounds on its factors' magnitudes.
pub proof fn lemma_mul_magnitude(a: int, b: int, ma: int, mb: int)
    requires
        -ma <= a <= ma,
        -mb <= b <= mb,
        0 <= ma,
        0 <= mb,
    ensures
        -(ma * mb) <= a * b <= ma * mb,
{
    assert(-(ma * mb) <= a * b <= ma * mb) by (nonlinear_arith)
        requires
            -ma <= a <= ma,
            -mb <= b <= mb,
            0 <= ma,
            0 <= mb,
    ;
}

/// Truncating division on `i128` values.
pub fn div_trunc_i128(a: i128, b: i128) -> (q: i128)
    requires
        b > 0,
        a > i128::MIN,
    ensures
        q == div_trunc(a as int, b as int),
{
    if a >= 0 {
        let m: u128 = a as u128;
        let d: u128 = b as u128;
        let qm: u128 = m / d;
        proof {
            vstd::arithmetic::div_mod::lemma_div_nonincreasing(m as int, d as int);
        }
        qm as i128
    } else {
        let m: u128 = (-a) as u128;
        let d: u128 = b as u128;
        let qm: u128 = m / d;
        proof {
            vstd::arithmetic::div_mod::lemma_div_nonincreasing(m as int, d as int);
        }
        -(qm as i128)
    }
}

} // verus!
