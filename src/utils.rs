use vstd::prelude::*;
use crate::constants::BPS_SCALE;
use crate::errors::MinidexError;
use crate::math::{lemma_mul_div_le, lemma_mul_u64_fits};
use crate::state::{Pool, SwapDirection};

verus! {

/// The input that prices a swap: `floor(amount * (10000 - fee_rate) / 10000)`.
pub open spec fn fee_adjusted_in(amount: int, fee_rate: int) -> int {
    amount * (BPS_SCALE - fee_rate) / (BPS_SCALE as int)
}

/// The constant-product quote: `floor(fa * reserve_out / (reserve_in + fa))`,
/// where `fa` is the fee-discounted input.
pub open spec fn swap_quote(amount: int, fee_rate: int, reserve_in: int, reserve_out: int) -> int {
    let fa = fee_adjusted_in(amount, fee_rate);
    fa * reserve_out / (reserve_in + fa)
}

/// What `calculate_swap_output` returns: the quote, or `MathOverflow` when the
/// fee exceeds the whole or the quote's divisor is zero.
pub open spec fn swap_output(pool: Pool, amount: u64, direction: SwapDirection) -> Result<u64, MinidexError> {
    let (reserve_in, reserve_out) = pool.swap_reserves(direction);
    if pool.fee_rate > BPS_SCALE || reserve_in + fee_adjusted_in(amount as int, pool.fee_rate as int) == 0 {
        Err(MinidexError::MathOverflow)
    } else {
        Ok(swap_quote(amount as int, pool.fee_rate as int, reserve_in as int, reserve_out as int) as u64)
    }
}

/// The fee-discounted input lies between zero and the full input.
pub proof fn lemma_fee_adjusted_bounds(amount: int, fee_rate: int)
    requires
        0 <= amount,
        0 <= fee_rate <= BPS_SCALE,
    ensures
        0 <= fee_adjusted_in(amount, fee_rate) <= amount,
{
    lemma_mul_div_le(BPS_SCALE - fee_rate, amount, BPS_SCALE as int);
    assert((BPS_SCALE - fee_rate) * amount == amount * (BPS_SCALE - fee_rate)) by (nonlinear_arith);
}

/// A quote never exceeds the output reserve.
pub proof fn lemma_swap_quote_bounds(amount: int, fee_rate: int, reserve_in: int, reserve_out: int)
    requires
        0 <= amount,
        0 <= fee_rate <= BPS_SCALE,
        0 <= reserve_in,
        0 <= reserve_out,
        reserve_in + fee_adjusted_in(amount, fee_rate) > 0,
    ensures
        0 <= swap_quote(amount, fee_rate, reserve_in, reserve_out) <= reserve_out,
{
    let fa = fee_adjusted_in(amount, fee_rate);
    lemma_fee_adjusted_bounds(amount, fee_rate);
    lemma_mul_div_le(fa, reserve_out, reserve_in + fa);
}

/// Prices a swap of `amount` in `direction` against the pool's reserves.
pub fn calculate_swap_output(pool: &Pool, amount: u64, direction: SwapDirection) -> (r: Result<u64, MinidexError>)
    ensures
        r == swap_output(*pool, amount, direction),
        r is Ok ==> r->Ok_0 <= pool.swap_reserves(direction).1,
{
    let (reserve_in, reserve_out) = match direction {
        SwapDirection::AToB => (pool.reserve_a, pool.reserve_b),
        SwapDirection::BToA => (pool.reserve_b, pool.reserve_a),
    };
    let fee = pool.fee_rate as u128;
    if fee > BPS_SCALE {
        return Err(MinidexError::MathOverflow);
    }
    proof {
        assert((amount as int) * (BPS_SCALE - fee) <= u64::MAX * BPS_SCALE) by (nonlinear_arith)
            requires
                0 <= amount <= u64::MAX,
                0 <= BPS_SCALE - fee <= BPS_SCALE,
        ;
        lemma_fee_adjusted_bounds(amount as int, fee as int);
    }
    let fee_adjusted: u128 = (amount as u128) * (BPS_SCALE - fee) / BPS_SCALE;
    let denominator: u128 = reserve_in as u128 + fee_adjusted;
    if denominator == 0 {
        return Err(MinidexError::MathOverflow);
    }
    proof {
        lemma_mul_u64_fits(fee_adjusted as u64, reserve_out);
        lemma_swap_quote_bounds(amount as int, fee as int, reserve_in as int, reserve_out as int);
    }
    let numerator: u128 = fee_adjusted * (reserve_out as u128);
    let amount_out: u128 = numerator / denominator;
    Ok(amount_out as u64)
}

} // verus!
