use vstd::prelude::*;

verus! {

/// Every way an operation on a pool can fail. Each failure is a distinct kind.
#[derive(Clone, Copy, Debug, PartialEq, Eq, Structural)]
pub enum MinidexError {
    InvalidFeeRate,
    IdenticalMints,
    ZeroAmount,
    MathOverflow,
    InsufficientLiquidity,
    SlippageExceeded,
    ZeroLPTokens,
    EmptyPool,
    InsufficientLPTokens,
    InsufficientSourceTokens,
    ZeroSwapAmount,
    InsufficientUserBalance,
}

} // verus!
