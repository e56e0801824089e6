//! Overflow-checked integer arithmetic primitives.
//!
//! Every product-then-quotient in the engine goes through
//! [`mul_then_div`], which uses a 128-bit intermediate so the product
//! itself cannot overflow; only a zero divisor or a quotient outside the
//! 64-bit domain is an error. All rounding is floor (truncating)
//! division — never up — which is what keeps every rounding residue
//! inside the pool.

use vstd::prelude::*;
use vstd::arithmetic::div_mod::{
    lemma_fundamental_div_mod, lemma_div_multiples_vanish, lemma_multiply_divide_le,
    lemma_multiply_divide_lt, lemma_div_pos_is_pos,
};
use vstd::arithmetic::mul::{lemma_mul_inequality, lemma_mul_is_commutative};
use crate::error::AmmError;

verus! {

/// floor(a * b / c) over the mathematical integers: the quantity every
/// checked product-then-quotient in the engine is held to.
pub open spec fn mul_div(a: u64, b: u64, c: u64) -> int {
    (a * b) / (c as int)
}

/// Computes floor(a * b / c) with a 128-bit intermediate, so the product
/// itself cannot overflow. Fails only on a zero divisor or on a quotient
/// that does not fit the 64-bit domain.
pub fn mul_then_div(a: u64, b: u64, c: u64) -> (r: Result<u64, AmmError>)
    ensures
        match r {
            Ok(q) => c > 0 && q == mul_div(a, b, c),
            Err(e) => {
                &&& e == AmmError::ArithmeticError
                &&& (c == 0 || mul_div(a, b, c) > u64::MAX)
            },
        },
{
    if c == 0 {
        return Err(AmmError::ArithmeticError);
    }
    proof {
        lemma_mul_inequality(a as int, u64::MAX as int, b as int);
        lemma_mul_inequality(b as int, u64::MAX as int, u64::MAX as int);
        lemma_mul_is_commutative(a as int, b as int);
        lemma_mul_is_commutative(u64::MAX as int, b as int);
    }
    let p: u128 = (a as u128) * (b as u128);
    let q: u128 = p / (c as u128);
    if q > u64::MAX as u128 {
        Err(AmmError::ArithmeticError)
    } else {
        Ok(q as u64)
    }
}

/// The quotient floor(x / d) never exceeds a bound k whose product with
/// the divisor dominates the dividend.
pub proof fn lemma_div_le_bound(x: int, k: int, d: int)
    requires
        0 <= x,
        0 < d,
        x <= d * k,
    ensures
        x / d <= k,
{
    lemma_multiply_divide_le(x, d, k);
}

/// The quotient floor(x / d) stays strictly under a bound k whose product
/// with the divisor strictly dominates the dividend.
pub proof fn lemma_div_lt_bound(x: int, k: int, d: int)
    requires
        0 <= x,
        0 < d,
        x < d * k,
    ensures
        x / d < k,
{
    lemma_multiply_divide_lt(x, d, k);
}

/// Floor division loses at most the remainder: d * floor(x / d) <= x,
/// and what is lost is less than d.
pub proof fn lemma_div_times_divisor(x: int, d: int)
    requires
        0 <= x,
        0 < d,
    ensures
        d * (x / d) <= x,
        x - d < d * (x / d),
        0 <= x / d,
{
    lemma_fundamental_div_mod(x, d);
    lemma_div_pos_is_pos(x, d);
}

/// An exact proportional withdrawal: taking all t shares of a reserve r
/// pays out exactly r, since floor(t * r / t) == r.
pub proof fn lemma_full_share_exact(t: int, r: int)
    requires
        0 < t,
        0 <= r,
    ensures
        (t * r) / t == r,
{
    lemma_div_multiples_vanish(r, t);
}

} // verus!
