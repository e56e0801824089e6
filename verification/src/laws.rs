//! The laws of the pool engine, proved once and for all inputs.
//!
//! Each proof function here relates several operations through the same
//! spec functions that the operations' own contracts use: a caller may
//! instantiate them with any well-formed pool and any arguments.

use vstd::prelude::*;
use vstd::arithmetic::div_mod::{
    lemma_div_pos_is_pos, lemma_fundamental_div_mod, lemma_mod_division_less_than_divisor,
};
use vstd::arithmetic::mul::{
    lemma_mul_by_zero_is_zero, lemma_mul_inequality, lemma_mul_is_commutative,
    lemma_mul_is_distributive_add, lemma_mul_is_distributive_add_other_way,
    lemma_mul_is_distributive_sub, lemma_mul_nonnegative,
};
use crate::liquidity::{
    minted_shares, spec_add_liquidity, spec_remove_liquidity, withdrawal_a, withdrawal_b,
};
use crate::math::{lemma_div_le_bound, lemma_div_times_divisor, lemma_full_share_exact};
use crate::pool::Pool;
use crate::swap::{
    fee_amount, input_reserve, lemma_output_bounds, net_input, output_reserve, spec_swap,
    swap_output, SwapDirection,
};

verus! {

/// A deposit's payout can never beat the deposit: a successful
/// `add_liquidity` followed by `remove_liquidity` of exactly the minted
/// shares always succeeds and returns at most the amounts deposited —
/// the floor rounding biases both steps toward the pool, never toward
/// the depositor.
pub proof fn lemma_add_remove_conservation(p: Pool, amount_a: u64, amount_b: u64)
    requires
        p.wf(),
        spec_add_liquidity(p, amount_a, amount_b) is Ok,
    ensures
        ({
            let pr = spec_add_liquidity(p, amount_a, amount_b)->Ok_0;
            &&& spec_remove_liquidity(pr.0, pr.1) is Ok
            &&& spec_remove_liquidity(pr.0, pr.1)->Ok_0.1.0 <= amount_a
            &&& spec_remove_liquidity(pr.0, pr.1)->Ok_0.1.1 <= amount_b
        }),
{
    let s: int = minted_shares(p, amount_a, amount_b);
    let pr = spec_add_liquidity(p, amount_a, amount_b)->Ok_0;
    let p1 = pr.0;
    let ra: int = p.reserve_a as int;
    let rb: int = p.reserve_b as int;
    let t: int = p.total_lp_shares as int;
    let a: int = amount_a as int;
    let b: int = amount_b as int;
    assert(p1.reserve_a == ra + a && p1.reserve_b == rb + b && p1.total_lp_shares == t + s);
    if ra == 0 || rb == 0 {
        // First deposit: the pool was empty, the whole share supply is
        // burned back, and the payout is exact.
        assert(t == 0 && s == a + b);
        lemma_full_share_exact(s, a);
        lemma_full_share_exact(s, b);
        assert(withdrawal_a(p1, pr.1) == a);
        assert(withdrawal_b(p1, pr.1) == b);
    } else {
        lemma_le_own_quote(s, a, t, ra);
        lemma_le_own_quote(s, b, t, rb);
        assert(withdrawal_a(p1, pr.1) <= a);
        assert(withdrawal_b(p1, pr.1) <= b);
    }
}

/// The minted shares are at most the depositing side's own quote
/// floor(amount * t / reserve), so burning them right back against the
/// grown pool pays out at most that side's deposit:
/// floor(s * (reserve + amount) / (t + s)) <= amount.
proof fn lemma_le_own_quote(s: int, amount: int, t: int, reserve: int)
    requires
        0 < reserve,
        0 <= amount,
        0 <= t,
        0 < t + s,
        0 <= s <= (amount * t) / reserve,
    ensures
        0 <= (s * (reserve + amount)) / (t + s) <= amount,
{
    let quote: int = (amount * t) / reserve;
    lemma_mul_nonnegative(amount, t);
    lemma_div_times_divisor(amount * t, reserve);
    // reserve * quote <= amount * t, hence s * reserve <= amount * t.
    lemma_mul_inequality(s, quote, reserve);
    lemma_mul_is_commutative(quote, reserve);
    lemma_mul_is_commutative(s, reserve);
    // s * (reserve + amount) == s * reserve + s * amount
    //                        <= amount * t + amount * s == amount * (t + s).
    lemma_mul_is_distributive_add(s, reserve, amount);
    lemma_mul_is_distributive_add(amount, t, s);
    lemma_mul_is_commutative(s, amount);
    lemma_mul_is_commutative(amount, t + s);
    lemma_mul_nonnegative(s, reserve + amount);
    lemma_div_le_bound(s * (reserve + amount), amount, t + s);
    lemma_div_pos_is_pos(s * (reserve + amount), t + s);
}

/// A swap never creates value: for every successful swap, the
/// constant-product invariant over the pre-swap reserves and the net
/// input does not shrink —
/// (in_reserve + net) * (out_reserve - output) >= in_reserve * out_reserve.
pub proof fn lemma_swap_no_value_creation(
    p: Pool,
    input_amount: u64,
    minimum_output: u64,
    direction: SwapDirection,
)
    requires
        p.wf(),
        spec_swap(p, input_amount, minimum_output, direction) is Ok,
    ensures
        ({
            let out = spec_swap(p, input_amount, minimum_output, direction)->Ok_0.1;
            (input_reserve(p, direction) + net_input(p, input_amount)) * (output_reserve(
                p,
                direction,
            ) - out) >= input_reserve(p, direction) * output_reserve(p, direction)
        }),
{
    let in_r: int = input_reserve(p, direction) as int;
    let out_r: int = output_reserve(p, direction) as int;
    let net: int = net_input(p, input_amount);
    let d: int = in_r + net;
    let out: int = swap_output(p, input_amount, direction);
    // The u64 output the operation reports is exactly the mathematical
    // quotient, which lies between 0 and the output reserve.
    lemma_output_bounds(out_r, net, in_r);
    assert(spec_swap(p, input_amount, minimum_output, direction)->Ok_0.1 == out);
    // out_r * net == d * out + rem with 0 <= rem < d.
    lemma_fundamental_div_mod(out_r * net, d);
    lemma_mod_division_less_than_divisor(out_r * net, d);
    let rem: int = (out_r * net) % d;
    // d * (out_r - out) == d * out_r - d * out
    //                   == d * out_r - (out_r * net - rem)
    //                   == out_r * (d - net) + rem == out_r * in_r + rem.
    lemma_mul_is_distributive_sub(d, out_r, out);
    lemma_mul_is_distributive_sub(out_r, d, net);
    lemma_mul_is_commutative(d, out_r);
    lemma_mul_is_commutative(out_r, in_r);
    assert(d * (out_r - out) >= in_r * out_r);
}

/// The fee makes the pool grow: a successful swap never shrinks the
/// product of the two reserves, and strictly grows it whenever the
/// collected fee is at least one unit. Repeated swaps therefore drive
/// reserve_a * reserve_b monotonically upward.
pub proof fn lemma_swap_grows_product(
    p: Pool,
    input_amount: u64,
    minimum_output: u64,
    direction: SwapDirection,
)
    requires
        p.wf(),
        spec_swap(p, input_amount, minimum_output, direction) is Ok,
    ensures
        ({
            let p1 = spec_swap(p, input_amount, minimum_output, direction)->Ok_0.0;
            &&& p1.reserve_a * p1.reserve_b >= p.reserve_a * p.reserve_b
            &&& (fee_amount(p, input_amount) >= 1 ==> p1.reserve_a * p1.reserve_b
                > p.reserve_a * p.reserve_b)
        }),
{
    let in_r: int = input_reserve(p, direction) as int;
    let out_r: int = output_reserve(p, direction) as int;
    let net: int = net_input(p, input_amount);
    let d: int = in_r + net;
    let fee: int = fee_amount(p, input_amount);
    let out: int = swap_output(p, input_amount, direction);
    let p1 = spec_swap(p, input_amount, minimum_output, direction)->Ok_0.0;
    lemma_swap_no_value_creation(p, input_amount, minimum_output, direction);
    // A successful swap priced a positive output, so neither the output
    // reserve nor the net input was zero, and by well-formedness the
    // input reserve was not either.
    if out_r == 0 || net == 0 {
        lemma_mul_by_zero_is_zero(if out_r == 0 { net } else { out_r });
        lemma_div_pos_is_pos(out_r * net, d);
        lemma_div_le_bound(out_r * net, 0, d);
        assert(false);
    }
    assert(in_r > 0);
    // The output stays strictly inside the output reserve, so the
    // out-side factor is positive.
    lemma_output_bounds(out_r, net, in_r);
    assert(out < out_r);
    assert(spec_swap(p, input_amount, minimum_output, direction)->Ok_0.1 == out);
    // The whole input enters the reserve: the in-side factor is d + fee,
    // and the fee's contribution fee * (out_r - out) is nonnegative —
    // at least 1 when the fee is.
    lemma_mul_is_distributive_add_other_way(out_r - out, d, fee);
    assert((d + fee) * (out_r - out) == d * (out_r - out) + fee * (out_r - out));
    lemma_mul_nonnegative(fee, out_r - out);
    if fee >= 1 {
        lemma_mul_inequality(1, fee, out_r - out);
        assert(fee * (out_r - out) >= 1);
    }
    assert(d * (out_r - out) >= in_r * out_r);
    // Tie the directed reserves back to the pool fields.
    lemma_mul_is_commutative(out_r - out, in_r + net + fee);
    lemma_mul_is_commutative(out_r, in_r);
    assert(p1.reserve_a * p1.reserve_b == (in_r + net + fee) * (out_r - out));
}

} // verus!
