//! A constant-product automated-market-maker pool engine.
//!
//! The engine manages two-asset liquidity pools: it issues and burns
//! proportional liquidity-provider shares and prices swaps on the
//! x * y = k curve with a configurable fee. It is ledger-agnostic:
//! every operation only computes amounts and updates the [`pool::Pool`]
//! entity; the caller executes the matching asset movements atomically.

pub mod error;
pub mod math;
pub mod pool;
pub mod liquidity;
pub mod swap;
pub mod laws;
