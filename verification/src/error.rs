use vstd::prelude::*;

verus! {

/// The error taxonomy of the pool engine.
///
/// Every error is terminal for the current operation and is raised before
/// any state is written: a failed operation leaves the pool exactly as it
/// was.
#[derive(Clone, Copy, Debug, PartialEq, Eq, Structural)]
pub enum AmmError {
    /// The fee denominator was zero at pool creation.
    InvalidFee,
    /// The two asset identifiers handed to pool creation are identical.
    InvalidAssetPair,
    /// A caller-supplied amount argument was zero.
    InvalidAmount,
    /// A checked overflow, underflow or division produced a result outside
    /// the 64-bit domain.
    ArithmeticError,
    /// The computed swap output rounds down to zero.
    ZeroSwapOutput,
    /// A removal asked for more shares than the pool has outstanding.
    InsufficientLiquidity,
    /// The computed swap output is below the caller's declared minimum.
    SlippageExceeded,
}

} // verus!
