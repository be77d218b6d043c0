use vstd::prelude::*;

verus! {

/// LP shares withheld for good on the first deposit: they are counted in the
/// supply but never belong to any holder.
pub const MINIMUM_LIQUIDITY: u64 = 100;

/// Highest fee a pool may charge, in basis points (10%).
pub const MAX_FEE_RATE: u16 = 1000;

/// Basis points in a whole: a fee of `BPS_SCALE` would take the entire input.
pub const BPS_SCALE: u128 = 10000;

} // verus!
