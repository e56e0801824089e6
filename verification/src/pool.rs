//! The pool entity and its factory.
//!
//! A [`Pool`] is the sole persistent entity of the engine: two asset
//! reserves, the outstanding liquidity-provider share supply, and the
//! immutable fee parameters. [`create_pool`] validates the creation
//! parameters and returns a fresh, empty pool.

use vstd::prelude::*;
use crate::error::AmmError;

verus! {

/// A two-asset constant-product liquidity pool.
///
/// Reserves and the share supply are mutated exclusively by the
/// liquidity and swap operations; the identifiers and fee parameters are
/// fixed at creation. The caller-side ledger custodies the actual
/// tokens: this entity only accounts for amounts.
#[derive(Clone, Copy, Debug, PartialEq, Eq, Structural)]
pub struct Pool {
    /// Identifier of the first pooled asset.
    pub asset_a_id: u64,
    /// Identifier of the second pooled asset; differs from `asset_a_id`.
    pub asset_b_id: u64,
    /// Quantity of asset A currently held by the pool.
    pub reserve_a: u64,
    /// Quantity of asset B currently held by the pool.
    pub reserve_b: u64,
    /// Total outstanding liquidity-provider shares.
    pub total_lp_shares: u64,
    /// Numerator of the swap fee rate applied to each swap input.
    pub fee_numerator: u64,
    /// Denominator of the swap fee rate; always positive.
    pub fee_denominator: u64,
    /// Ledger reference of the asset that represents the pool's shares.
    /// The engine never mints tokens itself; it only computes counts.
    pub share_issuer_id: u64,
    /// Opaque value proving the pool's canonical derivation from its two
    /// asset identifiers; used by the caller for authorization and
    /// irrelevant to the pool arithmetic.
    pub authority_derivation_key: u8,
}

impl Pool {
    /// Well-formedness of a pool state.
    ///
    /// Established by [`create_pool`] and preserved by every operation:
    /// the fee denominator is positive, the asset pair is not degenerate,
    /// and the share supply is zero exactly in the freshly-initialized
    /// state where both reserves are zero — a pool is either empty or has
    /// both reserves and its share supply positive.
    pub open spec fn wf(self) -> bool {
        &&& self.fee_denominator > 0
        &&& self.asset_a_id != self.asset_b_id
        &&& (self.total_lp_shares == 0 <==> self.reserve_a == 0)
        &&& (self.reserve_a == 0 <==> self.reserve_b == 0)
    }
}

/// Validates the creation parameters and constructs a fresh pool with
/// zero reserves and zero outstanding shares.
///
/// Fails with `InvalidFee` on a zero fee denominator and with
/// `InvalidAssetPair` when the two asset identifiers coincide; succeeds
/// exactly otherwise. Persistence of the returned entity is the caller's
/// responsibility.
pub fn create_pool(
    asset_a_id: u64,
    asset_b_id: u64,
    fee_numerator: u64,
    fee_denominator: u64,
    share_issuer_id: u64,
    authority_derivation_key: u8,
) -> (r: Result<Pool, AmmError>)
    ensures
        match r {
            Ok(p) => {
                &&& fee_denominator > 0
                &&& asset_a_id != asset_b_id
                &&& p == (Pool {
                    asset_a_id,
                    asset_b_id,
                    reserve_a: 0,
                    reserve_b: 0,
                    total_lp_shares: 0,
                    fee_numerator,
                    fee_denominator,
                    share_issuer_id,
                    authority_derivation_key,
                })
                &&& p.wf()
            },
            Err(e) => {
                &&& (fee_denominator == 0 || asset_a_id == asset_b_id)
                &&& e == (if fee_denominator == 0 {
                    AmmError::InvalidFee
                } else {
                    AmmError::InvalidAssetPair
                })
            },
        },
{
    if fee_denominator == 0 {
        return Err(AmmError::InvalidFee);
    }
    if asset_a_id == asset_b_id {
        return Err(AmmError::InvalidAssetPair);
    }
    Ok(Pool {
        asset_a_id,
        asset_b_id,
        reserve_a: 0,
        reserve_b: 0,
        total_lp_shares: 0,
        fee_numerator,
        fee_denominator,
        share_issuer_id,
        authority_derivation_key,
    })
}

} // verus!
