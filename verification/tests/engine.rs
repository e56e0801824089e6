//! End-to-end tests of the pool engine: creation, deposits, withdrawals
//! and swaps, with every error variant exercised and every failed
//! operation checked to leave the pool untouched.

use automated_market_maker::error::AmmError;
use automated_market_maker::liquidity::{add_liquidity, remove_liquidity};
use automated_market_maker::math::mul_then_div;
use automated_market_maker::pool::{create_pool, Pool};
use automated_market_maker::swap::{swap, SwapDirection};

fn pool(reserve_a: u64, reserve_b: u64, total_lp_shares: u64, fee_num: u64, fee_den: u64) -> Pool {
    Pool {
        asset_a_id: 11,
        asset_b_id: 22,
        reserve_a,
        reserve_b,
        total_lp_shares,
        fee_numerator: fee_num,
        fee_denominator: fee_den,
        share_issuer_id: 33,
        authority_derivation_key: 7,
    }
}

#[test]
fn create_pool_returns_empty_pool() {
    let p = create_pool(11, 22, 3, 1000, 33, 7).unwrap();
    assert_eq!(p.asset_a_id, 11);
    assert_eq!(p.asset_b_id, 22);
    assert_eq!(p.reserve_a, 0);
    assert_eq!(p.reserve_b, 0);
    assert_eq!(p.total_lp_shares, 0);
    assert_eq!(p.fee_numerator, 3);
    assert_eq!(p.fee_denominator, 1000);
    assert_eq!(p.share_issuer_id, 33);
    assert_eq!(p.authority_derivation_key, 7);
}

#[test]
fn create_pool_rejects_zero_fee_denominator() {
    assert_eq!(create_pool(11, 22, 3, 0, 33, 7), Err(AmmError::InvalidFee));
}

#[test]
fn create_pool_rejects_identical_assets() {
    assert_eq!(create_pool(11, 11, 3, 1000, 33, 7), Err(AmmError::InvalidAssetPair));
}

#[test]
fn create_pool_checks_fee_before_asset_pair() {
    assert_eq!(create_pool(11, 11, 3, 0, 33, 7), Err(AmmError::InvalidFee));
}

#[test]
fn first_deposit_seeds_shares() {
    let mut p = pool(0, 0, 0, 3, 1000);
    assert_eq!(add_liquidity(&mut p, 100, 50), Ok(150));
    assert_eq!(p.reserve_a, 100);
    assert_eq!(p.reserve_b, 50);
    assert_eq!(p.total_lp_shares, 150);
}

#[test]
fn proportional_mint_takes_scarcer_side() {
    let mut p = pool(100, 200, 100, 3, 1000);
    // a_share = floor(50 * 100 / 100) = 50, b_share = floor(100 * 100 / 200) = 50.
    assert_eq!(add_liquidity(&mut p, 50, 100), Ok(50));
    assert_eq!(p.reserve_a, 150);
    assert_eq!(p.reserve_b, 300);
    assert_eq!(p.total_lp_shares, 150);
}

#[test]
fn imbalanced_deposit_mints_minimum_quote() {
    let mut p = pool(1000, 1000, 1000, 3, 1000);
    // a_share = 500, b_share = 10: only the scarcer side counts.
    assert_eq!(add_liquidity(&mut p, 500, 10), Ok(10));
    assert_eq!(p.total_lp_shares, 1010);
}

#[test]
fn add_rejects_zero_amount_a() {
    let mut p = pool(100, 200, 100, 3, 1000);
    let before = p;
    assert_eq!(add_liquidity(&mut p, 0, 5), Err(AmmError::InvalidAmount));
    assert_eq!(p, before);
}

#[test]
fn add_rejects_zero_amount_b() {
    let mut p = pool(100, 200, 100, 3, 1000);
    let before = p;
    assert_eq!(add_liquidity(&mut p, 5, 0), Err(AmmError::InvalidAmount));
    assert_eq!(p, before);
}

#[test]
fn add_rejects_reserve_overflow() {
    let mut p = pool(u64::MAX - 10, 200, 100, 3, 1000);
    let before = p;
    assert_eq!(add_liquidity(&mut p, 11, 5), Err(AmmError::ArithmeticError));
    assert_eq!(p, before);
}

#[test]
fn add_rejects_seed_share_overflow() {
    let mut p = pool(0, 0, 0, 3, 1000);
    let before = p;
    assert_eq!(add_liquidity(&mut p, u64::MAX, 1), Err(AmmError::ArithmeticError));
    assert_eq!(p, before);
}

#[test]
fn add_rejects_dust_deposit() {
    // Both quotes floor to zero: the deposit would be a donation.
    let mut p = pool(1000, 1000, 10, 3, 1000);
    let before = p;
    assert_eq!(add_liquidity(&mut p, 50, 50), Err(AmmError::ArithmeticError));
    assert_eq!(p, before);
}

#[test]
fn remove_pays_pro_rata() {
    let mut p = pool(100, 200, 100, 3, 1000);
    assert_eq!(remove_liquidity(&mut p, 50), Ok((50, 100)));
    assert_eq!(p.reserve_a, 50);
    assert_eq!(p.reserve_b, 100);
    assert_eq!(p.total_lp_shares, 50);
}

#[test]
fn remove_rounds_payout_down() {
    let mut p = pool(100, 100, 3, 3, 1000);
    // floor(1 * 100 / 3) = 33 on both sides; the residue stays pooled.
    assert_eq!(remove_liquidity(&mut p, 1), Ok((33, 33)));
    assert_eq!(p.reserve_a, 67);
    assert_eq!(p.reserve_b, 67);
    assert_eq!(p.total_lp_shares, 2);
}

#[test]
fn remove_rejects_zero_shares() {
    let mut p = pool(100, 200, 100, 3, 1000);
    let before = p;
    assert_eq!(remove_liquidity(&mut p, 0), Err(AmmError::InvalidAmount));
    assert_eq!(p, before);
}

#[test]
fn remove_rejects_excess_shares() {
    let mut p = pool(100, 200, 100, 3, 1000);
    let before = p;
    assert_eq!(remove_liquidity(&mut p, 101), Err(AmmError::InsufficientLiquidity));
    assert_eq!(p, before);
}

#[test]
fn remove_rejects_empty_pool() {
    let mut p = pool(0, 0, 0, 3, 1000);
    let before = p;
    assert_eq!(remove_liquidity(&mut p, 1), Err(AmmError::InsufficientLiquidity));
    assert_eq!(p, before);
}

#[test]
fn remove_all_shares_drains_pool() {
    let mut p = pool(100, 200, 100, 3, 1000);
    assert_eq!(remove_liquidity(&mut p, 100), Ok((100, 200)));
    assert_eq!(p.reserve_a, 0);
    assert_eq!(p.reserve_b, 0);
    assert_eq!(p.total_lp_shares, 0);
}

#[test]
fn swap_prices_on_constant_product() {
    let mut p = pool(1000, 1000, 2000, 3, 1000);
    // fee = floor(100 * 3 / 1000) = 0, net = 100,
    // output = floor(1000 * 100 / 1100) = 90 >= 80.
    assert_eq!(swap(&mut p, 100, 80, SwapDirection::AToB), Ok(90));
    assert_eq!(p.reserve_a, 1100);
    assert_eq!(p.reserve_b, 910);
    assert_eq!(p.total_lp_shares, 2000);
}

#[test]
fn swap_keeps_fee_in_input_reserve() {
    let mut p = pool(1000, 1000, 2000, 100, 1000);
    // fee = 10, net = 90, output = floor(1000 * 90 / 1090) = 82;
    // the full input, fee included, enters the reserve.
    assert_eq!(swap(&mut p, 100, 0, SwapDirection::AToB), Ok(82));
    assert_eq!(p.reserve_a, 1100);
    assert_eq!(p.reserve_b, 918);
}

#[test]
fn swap_b_to_a_moves_reserves_the_other_way() {
    let mut p = pool(1000, 2000, 2000, 3, 1000);
    // fee = 0, net = 200, output = floor(1000 * 200 / 2200) = 90.
    assert_eq!(swap(&mut p, 200, 0, SwapDirection::BToA), Ok(90));
    assert_eq!(p.reserve_a, 910);
    assert_eq!(p.reserve_b, 2200);
}

#[test]
fn swap_rejects_zero_input() {
    let mut p = pool(1000, 1000, 2000, 3, 1000);
    let before = p;
    assert_eq!(swap(&mut p, 0, 0, SwapDirection::AToB), Err(AmmError::InvalidAmount));
    assert_eq!(p, before);
}

#[test]
fn swap_enforces_slippage_bound() {
    let mut p = pool(1000, 1000, 2000, 3, 1000);
    let before = p;
    // The priced output of 90 is below the declared minimum of 95.
    assert_eq!(swap(&mut p, 100, 95, SwapDirection::AToB), Err(AmmError::SlippageExceeded));
    assert_eq!(p, before);
}

#[test]
fn swap_rejects_output_rounding_to_zero() {
    let mut p = pool(1_000_000, 1, 2000, 3, 1000);
    let before = p;
    assert_eq!(swap(&mut p, 1, 0, SwapDirection::AToB), Err(AmmError::ZeroSwapOutput));
    assert_eq!(p, before);
}

#[test]
fn swap_rejects_empty_pool() {
    let mut p = pool(0, 0, 0, 3, 1000);
    let before = p;
    assert_eq!(swap(&mut p, 5, 0, SwapDirection::AToB), Err(AmmError::ZeroSwapOutput));
    assert_eq!(p, before);
}

#[test]
fn swap_rejects_reserve_overflow() {
    let mut p = pool(u64::MAX - 10, 1000, 2000, 0, 1000);
    let before = p;
    assert_eq!(swap(&mut p, 100, 0, SwapDirection::AToB), Err(AmmError::ArithmeticError));
    assert_eq!(p, before);
}

#[test]
fn swap_rejects_fee_exceeding_input() {
    let mut p = pool(1000, 1000, 2000, 2, 1);
    let before = p;
    // fee = 2 * input: the checked subtraction must fail, not wrap.
    assert_eq!(swap(&mut p, 100, 0, SwapDirection::AToB), Err(AmmError::ArithmeticError));
    assert_eq!(p, before);
}

#[test]
fn add_then_remove_returns_no_more_than_deposited() {
    let mut p = pool(1000, 2000, 300, 3, 1000);
    // a_share = floor(100 * 300 / 1000) = 30, b_share = floor(100 * 300 / 2000) = 15.
    let minted = add_liquidity(&mut p, 100, 100).unwrap();
    assert_eq!(minted, 15);
    let (out_a, out_b) = remove_liquidity(&mut p, minted).unwrap();
    assert!(out_a <= 100);
    assert!(out_b <= 100);
    assert_eq!(out_a, 52);
    assert_eq!(out_b, 100);
}

#[test]
fn repeated_swaps_never_shrink_reserve_product() {
    let mut p = pool(1000, 1000, 2000, 30, 1000);
    let mut product = (p.reserve_a as u128) * (p.reserve_b as u128);
    for round in 0..20u64 {
        let dir = if round % 2 == 0 { SwapDirection::AToB } else { SwapDirection::BToA };
        swap(&mut p, 50 + round, 0, dir).unwrap();
        let next = (p.reserve_a as u128) * (p.reserve_b as u128);
        assert!(next >= product);
        product = next;
    }
}

#[test]
fn mul_then_div_computes_floor_quotient() {
    assert_eq!(mul_then_div(6, 7, 2), Ok(21));
    assert_eq!(mul_then_div(10, 10, 3), Ok(33));
    assert_eq!(mul_then_div(0, 10, 3), Ok(0));
}

#[test]
fn mul_then_div_uses_wide_intermediate() {
    // The product overflows 64 bits but the quotient fits.
    assert_eq!(mul_then_div(u64::MAX, u64::MAX, u64::MAX), Ok(u64::MAX));
}

#[test]
fn mul_then_div_rejects_zero_divisor() {
    assert_eq!(mul_then_div(6, 7, 0), Err(AmmError::ArithmeticError));
}

#[test]
fn mul_then_div_rejects_wide_quotient() {
    assert_eq!(mul_then_div(u64::MAX, 2, 1), Err(AmmError::ArithmeticError));
}

#[test]
fn swap_output_never_beats_constant_product() {
    let mut p = pool(1000, 1000, 2000, 3, 1000);
    let (in_before, out_before) = (p.reserve_a as u128, p.reserve_b as u128);
    let out = swap(&mut p, 100, 0, SwapDirection::AToB).unwrap() as u128;
    let fee = 100u128 * 3 / 1000;
    let net = 100u128 - fee;
    assert!((in_before + net) * (out_before - out) >= in_before * out_before);
}

#[test]
fn swap_rejects_fee_quotient_overflow() {
    let mut p = pool(1000, 1000, 2000, u64::MAX, 1);
    let before = p;
    // floor(2 * (2^64 - 1) / 1) does not fit the 64-bit domain.
    assert_eq!(swap(&mut p, 2, 0, SwapDirection::AToB), Err(AmmError::ArithmeticError));
    assert_eq!(p, before);
}
