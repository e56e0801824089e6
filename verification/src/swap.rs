//! The swap engine: fee collection and constant-product pricing.
//!
//! A swap charges the fee on the input, prices the output on the
//! x * y = k curve with floor rounding, enforces the caller's slippage
//! bound, and moves both reserves atomically. The whole input amount —
//! fee included — enters the input reserve, so the fee is kept by the
//! pool and permanently grows it.

use vstd::prelude::*;
use vstd::arithmetic::mul::{
    lemma_mul_inequality, lemma_mul_is_commutative, lemma_mul_strict_inequality,
};
use crate::error::AmmError;
use crate::math::{lemma_div_le_bound, lemma_div_lt_bound, mul_div, mul_then_div};
use crate::pool::Pool;

verus! {

/// The direction of a swap over the pool's asset pair.
#[derive(Clone, Copy, Debug, PartialEq, Eq, Structural)]
pub enum SwapDirection {
    /// Sell asset A to the pool and receive asset B.
    AToB,
    /// Sell asset B to the pool and receive asset A.
    BToA,
}

/// The fee charged on a swap input:
/// floor(input * fee_numerator / fee_denominator).
pub open spec fn fee_amount(p: Pool, input_amount: u64) -> int {
    mul_div(input_amount, p.fee_numerator, p.fee_denominator)
}

/// What remains of the input after the fee; only this net amount prices
/// the output, while the fee still enters the reserve.
pub open spec fn net_input(p: Pool, input_amount: u64) -> int {
    input_amount - fee_amount(p, input_amount)
}

/// The reserve the swap pays into.
pub open spec fn input_reserve(p: Pool, direction: SwapDirection) -> u64 {
    if direction is AToB {
        p.reserve_a
    } else {
        p.reserve_b
    }
}

/// The reserve the swap pays out of.
pub open spec fn output_reserve(p: Pool, direction: SwapDirection) -> u64 {
    if direction is AToB {
        p.reserve_b
    } else {
        p.reserve_a
    }
}

/// Constant-product pricing:
/// floor(output_reserve * net / (input_reserve + net)), the largest
/// output that keeps input_reserve * output_reserve from shrinking.
pub open spec fn swap_output(p: Pool, input_amount: u64, direction: SwapDirection) -> int {
    output_reserve(p, direction) * net_input(p, input_amount) / (input_reserve(p, direction)
        + net_input(p, input_amount))
}

/// The exact outcome of a swap: the successor pool and the output
/// amount, or the error raised, with the pool unchanged.
///
/// Every overflow, the fee exceeding the input, and a zero pricing
/// divisor are `ArithmeticError`; an output that rounds to zero is
/// `ZeroSwapOutput`; an output below the caller's minimum is
/// `SlippageExceeded`, checked before any state moves.
pub open spec fn spec_swap(
    p: Pool,
    input_amount: u64,
    minimum_output: u64,
    direction: SwapDirection,
) -> Result<(Pool, u64), AmmError> {
    let in_r = input_reserve(p, direction);
    let out = swap_output(p, input_amount, direction);
    if input_amount == 0 {
        Err(AmmError::InvalidAmount)
    } else if fee_amount(p, input_amount) > u64::MAX || fee_amount(p, input_amount) > input_amount
        || in_r + net_input(p, input_amount) > u64::MAX || in_r + net_input(p, input_amount)
        == 0 {
        Err(AmmError::ArithmeticError)
    } else if out == 0 {
        Err(AmmError::ZeroSwapOutput)
    } else if out < minimum_output {
        Err(AmmError::SlippageExceeded)
    } else if in_r + input_amount > u64::MAX {
        Err(AmmError::ArithmeticError)
    } else if direction is AToB {
        Ok(
            (
                (Pool {
                    reserve_a: (p.reserve_a + input_amount) as u64,
                    reserve_b: (p.reserve_b - out) as u64,
                    ..p
                }),
                out as u64,
            ),
        )
    } else {
        Ok(
            (
                (Pool {
                    reserve_a: (p.reserve_a - out) as u64,
                    reserve_b: (p.reserve_b + input_amount) as u64,
                    ..p
                }),
                out as u64,
            ),
        )
    }
}

/// The priced output never exceeds the output reserve, and stays
/// strictly under it as soon as the input reserve is positive.
pub proof fn lemma_output_bounds(out_r: int, net: int, in_r: int)
    requires
        0 <= out_r,
        0 <= net,
        0 <= in_r,
        0 < in_r + net,
    ensures
        0 <= (out_r * net) / (in_r + net) <= out_r,
        0 < in_r && 0 < out_r ==> (out_r * net) / (in_r + net) < out_r,
{
    let d = in_r + net;
    lemma_mul_is_commutative(out_r, net);
    lemma_mul_inequality(net, d, out_r);
    lemma_mul_is_commutative(d, out_r);
    lemma_div_le_bound(out_r * net, out_r, d);
    vstd::arithmetic::div_mod::lemma_div_pos_is_pos(out_r * net, d);
    vstd::arithmetic::mul::lemma_mul_nonnegative(out_r, net);
    if 0 < in_r && 0 < out_r {
        lemma_mul_strict_inequality(net, d, out_r);
        lemma_div_lt_bound(out_r * net, out_r, d);
    }
}

/// Swaps `input_amount` of the direction's input asset for the
/// direction's output asset, exactly as [`spec_swap`] states.
///
/// On success the returned output is the constant-product price of the
/// net input, it is at least `minimum_output`, the whole input amount is
/// added to the input reserve and the output is taken from the output
/// reserve, with the share supply untouched. Every failure — zero input,
/// arithmetic out of the 64-bit domain, an output rounding to zero, or
/// the slippage bound — leaves the pool unchanged. The caller must debit
/// the input from the trader and credit the output as one atomic unit
/// with this transition.
pub fn swap(
    pool: &mut Pool,
    input_amount: u64,
    minimum_output: u64,
    direction: SwapDirection,
) -> (r: Result<u64, AmmError>)
    requires
        old(pool).wf(),
    ensures
        final(pool).wf(),
        (match spec_swap(*old(pool), input_amount, minimum_output, direction) {
            Ok(pr) => r == Ok::<u64, AmmError>(pr.1) && *final(pool) == pr.0,
            Err(e) => r == Err::<u64, AmmError>(e) && *final(pool) == *old(pool),
        }),
{
    if input_amount == 0 {
        return Err(AmmError::InvalidAmount);
    }
    let fee = match mul_then_div(input_amount, pool.fee_numerator, pool.fee_denominator) {
        Ok(v) => v,
        Err(e) => {
            return Err(e);
        },
    };
    if fee > input_amount {
        return Err(AmmError::ArithmeticError);
    }
    let net = input_amount - fee;
    let in_r: u64;
    let out_r: u64;
    match direction {
        SwapDirection::AToB => {
            in_r = pool.reserve_a;
            out_r = pool.reserve_b;
        },
        SwapDirection::BToA => {
            in_r = pool.reserve_b;
            out_r = pool.reserve_a;
        },
    }
    if net > u64::MAX - in_r {
        return Err(AmmError::ArithmeticError);
    }
    let divisor = in_r + net;
    if divisor == 0 {
        return Err(AmmError::ArithmeticError);
    }
    proof {
        lemma_output_bounds(out_r as int, net as int, in_r as int);
    }
    let out = match mul_then_div(out_r, net, divisor) {
        Ok(v) => v,
        Err(e) => {
            // Unreachable: the output is at most the output reserve, so
            // the quotient always fits the 64-bit domain.
            assert(false);
            return Err(e);
        },
    };
    if out == 0 {
        return Err(AmmError::ZeroSwapOutput);
    }
    if out < minimum_output {
        return Err(AmmError::SlippageExceeded);
    }
    if input_amount > u64::MAX - in_r {
        return Err(AmmError::ArithmeticError);
    }
    match direction {
        SwapDirection::AToB => {
            pool.reserve_a = pool.reserve_a + input_amount;
            pool.reserve_b = pool.reserve_b - out;
        },
        SwapDirection::BToA => {
            pool.reserve_b = pool.reserve_b + input_amount;
            pool.reserve_a = pool.reserve_a - out;
        },
    }
    Ok(out)
}

} // verus!
