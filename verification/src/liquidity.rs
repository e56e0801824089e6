//! The liquidity engine: share minting on deposit, proportional payout
//! on withdrawal.
//!
//! Both operations are single atomic transitions on a [`Pool`]: they
//! validate, compute the deltas, and either commit all of them or return
//! an error with the pool untouched. The caller executes the matching
//! asset movements.

use vstd::prelude::*;
use vstd::arithmetic::mul::{
    lemma_mul_inequality, lemma_mul_is_commutative, lemma_mul_nonnegative,
    lemma_mul_strict_inequality,
};
use crate::error::AmmError;
use crate::math::{
    lemma_div_le_bound, lemma_div_lt_bound, lemma_full_share_exact, mul_div, mul_then_div,
};
use crate::pool::Pool;

verus! {

/// The shares a deposit of `amount_a` and `amount_b` mints.
///
/// On the first deposit (a reserve is still zero) the sum of the two
/// amounts seeds the share supply, since no ratio exists yet to
/// preserve. Afterwards each side is quoted at floor(amount * supply /
/// reserve) and the smaller quote wins, so an imbalanced deposit only
/// mints what its scarcer side supports.
pub open spec fn minted_shares(p: Pool, amount_a: u64, amount_b: u64) -> int {
    if p.reserve_a == 0 || p.reserve_b == 0 {
        amount_a + amount_b
    } else {
        let a_share = mul_div(amount_a, p.total_lp_shares, p.reserve_a);
        let b_share = mul_div(amount_b, p.total_lp_shares, p.reserve_b);
        if a_share <= b_share {
            a_share
        } else {
            b_share
        }
    }
}

/// The inputs on which a deposit succeeds: both amounts positive, every
/// reserve and share count stays inside the 64-bit domain, and the
/// deposit is large enough to mint at least one share.
pub open spec fn add_liquidity_ok(p: Pool, amount_a: u64, amount_b: u64) -> bool {
    &&& amount_a > 0
    &&& amount_b > 0
    &&& p.reserve_a + amount_a <= u64::MAX
    &&& p.reserve_b + amount_b <= u64::MAX
    &&& (if p.reserve_a == 0 || p.reserve_b == 0 {
        amount_a + amount_b <= u64::MAX
    } else {
        &&& mul_div(amount_a, p.total_lp_shares, p.reserve_a) <= u64::MAX
        &&& mul_div(amount_b, p.total_lp_shares, p.reserve_b) <= u64::MAX
    })
    &&& minted_shares(p, amount_a, amount_b) > 0
    &&& p.total_lp_shares + minted_shares(p, amount_a, amount_b) <= u64::MAX
}

/// The exact outcome of a deposit: the successor pool and the shares
/// minted, or the error raised, with the pool unchanged.
pub open spec fn spec_add_liquidity(p: Pool, amount_a: u64, amount_b: u64) -> Result<
    (Pool, u64),
    AmmError,
> {
    if amount_a == 0 || amount_b == 0 {
        Err(AmmError::InvalidAmount)
    } else if !add_liquidity_ok(p, amount_a, amount_b) {
        Err(AmmError::ArithmeticError)
    } else {
        Ok(
            (
                (Pool {
                    reserve_a: (p.reserve_a + amount_a) as u64,
                    reserve_b: (p.reserve_b + amount_b) as u64,
                    total_lp_shares: (p.total_lp_shares + minted_shares(
                        p,
                        amount_a,
                        amount_b,
                    )) as u64,
                    ..p
                }),
                minted_shares(p, amount_a, amount_b) as u64,
            ),
        )
    }
}

/// Deposits `amount_a` of asset A and `amount_b` of asset B and mints
/// the proportional share count, exactly as [`spec_add_liquidity`]
/// states.
///
/// Fails with `InvalidAmount` when either amount is zero and with
/// `ArithmeticError` when a reserve or the share supply would leave the
/// 64-bit domain or the deposit is too small to mint a share; succeeds
/// exactly otherwise, and an error leaves the pool unchanged. The caller
/// must debit the two amounts from the depositor and credit the minted
/// shares as one atomic unit with this transition.
pub fn add_liquidity(pool: &mut Pool, amount_a: u64, amount_b: u64) -> (r: Result<u64, AmmError>)
    requires
        old(pool).wf(),
    ensures
        final(pool).wf(),
        (match spec_add_liquidity(*old(pool), amount_a, amount_b) {
            Ok(pr) => r == Ok::<u64, AmmError>(pr.1) && *final(pool) == pr.0,
            Err(e) => r == Err::<u64, AmmError>(e) && *final(pool) == *old(pool),
        }),
{
    if amount_a == 0 || amount_b == 0 {
        return Err(AmmError::InvalidAmount);
    }
    if amount_a > u64::MAX - pool.reserve_a || amount_b > u64::MAX - pool.reserve_b {
        return Err(AmmError::ArithmeticError);
    }
    let minted: u64;
    if pool.reserve_a == 0 || pool.reserve_b == 0 {
        if amount_a > u64::MAX - amount_b {
            return Err(AmmError::ArithmeticError);
        }
        minted = amount_a + amount_b;
    } else {
        let a_share = match mul_then_div(amount_a, pool.total_lp_shares, pool.reserve_a) {
            Ok(v) => v,
            Err(e) => {
                return Err(e);
            },
        };
        let b_share = match mul_then_div(amount_b, pool.total_lp_shares, pool.reserve_b) {
            Ok(v) => v,
            Err(e) => {
                return Err(e);
            },
        };
        minted = if a_share <= b_share {
            a_share
        } else {
            b_share
        };
    }
    if minted == 0 {
        return Err(AmmError::ArithmeticError);
    }
    if minted > u64::MAX - pool.total_lp_shares {
        return Err(AmmError::ArithmeticError);
    }
    pool.reserve_a = pool.reserve_a + amount_a;
    pool.reserve_b = pool.reserve_b + amount_b;
    pool.total_lp_shares = pool.total_lp_shares + minted;
    Ok(minted)
}

/// Asset A paid out for burning `lp_tokens` shares:
/// floor(lp_tokens * reserve_a / total_lp_shares), the exact pro-rata
/// share rounded down in the pool's favor.
pub open spec fn withdrawal_a(p: Pool, lp_tokens: u64) -> int {
    mul_div(lp_tokens, p.reserve_a, p.total_lp_shares)
}

/// Asset B paid out for burning `lp_tokens` shares.
pub open spec fn withdrawal_b(p: Pool, lp_tokens: u64) -> int {
    mul_div(lp_tokens, p.reserve_b, p.total_lp_shares)
}

/// The exact outcome of a withdrawal: the successor pool and the two
/// payouts, or the error raised, with the pool unchanged.
pub open spec fn spec_remove_liquidity(p: Pool, lp_tokens: u64) -> Result<
    (Pool, (u64, u64)),
    AmmError,
> {
    if lp_tokens == 0 {
        Err(AmmError::InvalidAmount)
    } else if lp_tokens > p.total_lp_shares {
        Err(AmmError::InsufficientLiquidity)
    } else {
        Ok(
            (
                (Pool {
                    reserve_a: (p.reserve_a - withdrawal_a(p, lp_tokens)) as u64,
                    reserve_b: (p.reserve_b - withdrawal_b(p, lp_tokens)) as u64,
                    total_lp_shares: (p.total_lp_shares - lp_tokens) as u64,
                    ..p
                }),
                (withdrawal_a(p, lp_tokens) as u64, withdrawal_b(p, lp_tokens) as u64),
            ),
        )
    }
}

/// Burning lp of the t outstanding shares pays out at most the whole
/// reserve, exactly the whole reserve when all shares are burned, and
/// strictly less when some shares remain.
pub proof fn lemma_withdrawal_bounds(lp: int, r: int, t: int)
    requires
        0 < t,
        0 <= r,
        0 <= lp <= t,
    ensures
        0 <= (lp * r) / t <= r,
        lp == t ==> (lp * r) / t == r,
        lp < t && 0 < r ==> (lp * r) / t < r,
{
    lemma_mul_nonnegative(lp, r);
    lemma_mul_inequality(lp, t, r);
    lemma_mul_is_commutative(t, r);
    lemma_div_le_bound(lp * r, r, t);
    vstd::arithmetic::div_mod::lemma_div_pos_is_pos(lp * r, t);
    if lp == t {
        lemma_full_share_exact(t, r);
    }
    if lp < t && 0 < r {
        lemma_mul_strict_inequality(lp, t, r);
        lemma_div_lt_bound(lp * r, r, t);
    }
}

/// Burns `lp_tokens` shares and pays out the proportional amounts of
/// both reserves, exactly as [`spec_remove_liquidity`] states.
///
/// Fails with `InvalidAmount` on a zero share count and with
/// `InsufficientLiquidity` when more shares are tendered than are
/// outstanding; succeeds exactly otherwise, and an error leaves the pool
/// unchanged. Each payout is the floor of the exact pro-rata share, so
/// the rounding residue stays with the remaining share holders. The
/// caller must burn the shares and credit the two payouts as one atomic
/// unit with this transition.
pub fn remove_liquidity(pool: &mut Pool, lp_tokens: u64) -> (r: Result<(u64, u64), AmmError>)
    requires
        old(pool).wf(),
    ensures
        final(pool).wf(),
        (match spec_remove_liquidity(*old(pool), lp_tokens) {
            Ok(pr) => r == Ok::<(u64, u64), AmmError>(pr.1) && *final(pool) == pr.0,
            Err(e) => r == Err::<(u64, u64), AmmError>(e) && *final(pool) == *old(pool),
        }),
{
    if lp_tokens == 0 {
        return Err(AmmError::InvalidAmount);
    }
    if lp_tokens > pool.total_lp_shares {
        return Err(AmmError::InsufficientLiquidity);
    }
    proof {
        lemma_withdrawal_bounds(
            lp_tokens as int,
            pool.reserve_a as int,
            pool.total_lp_shares as int,
        );
        lemma_withdrawal_bounds(
            lp_tokens as int,
            pool.reserve_b as int,
            pool.total_lp_shares as int,
        );
    }
    let amount_a = match mul_then_div(lp_tokens, pool.reserve_a, pool.total_lp_shares) {
        Ok(v) => v,
        Err(e) => {
            // Unreachable: the payout is at most the reserve, so the
            // quotient always fits the 64-bit domain.
            assert(false);
            return Err(e);
        },
    };
    let amount_b = match mul_then_div(lp_tokens, pool.reserve_b, pool.total_lp_shares) {
        Ok(v) => v,
        Err(e) => {
            // Unreachable for the same reason as the first payout.
            assert(false);
            return Err(e);
        },
    };
    pool.reserve_a = pool.reserve_a - amount_a;
    pool.reserve_b = pool.reserve_b - amount_b;
    pool.total_lp_shares = pool.total_lp_shares - lp_tokens;
    Ok((amount_a, amount_b))
}

} // verus!
