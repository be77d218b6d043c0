use vstd::prelude::*;
use crate::constants::MINIMUM_LIQUIDITY;
use crate::errors::MinidexError;
use crate::math::{floor_sqrt, integer_sqrt, is_floor_sqrt, lemma_mul_u64_fits, mul_div_floor, narrow_u64};
use crate::state::Pool;

verus! {

/// What a deposit reads: the pool it goes into.
#[derive(Clone, Copy, Debug)]
pub struct AddLiquidity {
    pub pool: Pool,
}

/// Shares a later deposit earns: the smaller of the two proportional claims
/// `floor(amount_a * supply / reserve_a)` and `floor(amount_b * supply / reserve_b)`.
pub open spec fn proportional_shares(pool: Pool, amount_a: u64, amount_b: u64) -> int {
    let from_a = amount_a * pool.total_lp_supply / (pool.reserve_a as int);
    let from_b = amount_b * pool.total_lp_supply / (pool.reserve_b as int);
    if from_a < from_b {
        from_a
    } else {
        from_b
    }
}

/// The checks and updates shared by both kinds of deposit: `lp` shares go to
/// the depositor and `locked` more are added to the supply for no one.
pub open spec fn settle_deposit(pool: Pool, amount_a: u64, amount_b: u64, min_lp_tokens: u64, lp: int, locked: int) -> Result<(Pool, u64), MinidexError> {
    if lp < min_lp_tokens {
        Err(MinidexError::SlippageExceeded)
    } else if lp == 0 {
        Err(MinidexError::ZeroLPTokens)
    } else if pool.reserve_a + amount_a > u64::MAX || pool.reserve_b + amount_b > u64::MAX {
        Err(MinidexError::MathOverflow)
    } else if lp + locked > u64::MAX || pool.total_lp_supply + lp + locked > u64::MAX {
        Err(MinidexError::MathOverflow)
    } else {
        Ok(
            (
                Pool {
                    reserve_a: (pool.reserve_a + amount_a) as u64,
                    reserve_b: (pool.reserve_b + amount_b) as u64,
                    total_lp_supply: (pool.total_lp_supply + lp + locked) as u64,
                    ..pool
                },
                lp as u64,
            ),
        )
    }
}

/// The outcome of a deposit: the new pool and the shares minted to the
/// depositor, or the first check that fails.
pub open spec fn add_result(pool: Pool, amount_a: u64, amount_b: u64, min_lp_tokens: u64) -> Result<(Pool, u64), MinidexError> {
    if amount_a == 0 || amount_b == 0 {
        Err(MinidexError::ZeroAmount)
    } else if pool.total_lp_supply == 0 {
        let raw = floor_sqrt((amount_a * amount_b) as nat);
        if raw <= MINIMUM_LIQUIDITY {
            Err(MinidexError::InsufficientLiquidity)
        } else {
            settle_deposit(pool, amount_a, amount_b, min_lp_tokens, raw - MINIMUM_LIQUIDITY, MINIMUM_LIQUIDITY as int)
        }
    } else if pool.reserve_a == 0 || pool.reserve_b == 0 {
        Err(MinidexError::MathOverflow)
    } else {
        let lp = proportional_shares(pool, amount_a, amount_b);
        if lp > u64::MAX {
            Err(MinidexError::MathOverflow)
        } else {
            settle_deposit(pool, amount_a, amount_b, min_lp_tokens, lp, 0)
        }
    }
}

/// A deposit with a zero amount on either side fails with `ZeroAmount`.
pub proof fn lemma_add_zero_amount_fails(pool: Pool, amount_a: u64, amount_b: u64, min_lp_tokens: u64)
    requires
        amount_a == 0 || amount_b == 0,
    ensures
        add_result(pool, amount_a, amount_b, min_lp_tokens) == Err::<(Pool, u64), MinidexError>(MinidexError::ZeroAmount),
{
}

/// A first deposit whose `floor(sqrt(amount_a * amount_b))` does not exceed
/// the locked minimum fails with `InsufficientLiquidity`.
pub proof fn lemma_small_first_deposit_fails(pool: Pool, amount_a: u64, amount_b: u64, min_lp_tokens: u64)
    requires
        pool.total_lp_supply == 0,
        amount_a > 0,
        amount_b > 0,
        floor_sqrt((amount_a * amount_b) as nat) <= MINIMUM_LIQUIDITY,
    ensures
        add_result(pool, amount_a, amount_b, min_lp_tokens) == Err::<(Pool, u64), MinidexError>(MinidexError::InsufficientLiquidity),
{
}

/// A successful deposit keeps a well-formed pool well-formed.
pub proof fn lemma_add_preserves_wf(pool: Pool, amount_a: u64, amount_b: u64, min_lp_tokens: u64)
    requires
        pool.wf(),
        add_result(pool, amount_a, amount_b, min_lp_tokens) is Ok,
    ensures
        add_result(pool, amount_a, amount_b, min_lp_tokens)->Ok_0.0.wf(),
{
}

/// A deposit into a funded pool moves the price `reserve_a / reserve_b` only by
/// how far the deposit is off the pool's ratio: the cross difference
/// `reserve_a' * reserve_b - reserve_b' * reserve_a` equals
/// `amount_a * reserve_b - amount_b * reserve_a`, so a deposit in the pool's
/// ratio leaves the price exactly where it was.
pub proof fn lemma_add_price_drift(pool: Pool, amount_a: u64, amount_b: u64, min_lp_tokens: u64)
    requires
        pool.total_lp_supply > 0,
        add_result(pool, amount_a, amount_b, min_lp_tokens) is Ok,
    ensures
        ({
            let new_pool = add_result(pool, amount_a, amount_b, min_lp_tokens)->Ok_0.0;
            &&& new_pool.reserve_a * pool.reserve_b - new_pool.reserve_b * pool.reserve_a
                == amount_a * pool.reserve_b - amount_b * pool.reserve_a
            &&& (amount_a * pool.reserve_b == amount_b * pool.reserve_a ==> new_pool.reserve_a
                * pool.reserve_b == new_pool.reserve_b * pool.reserve_a)
        }),
{
    let ra = pool.reserve_a as int;
    let rb = pool.reserve_b as int;
    let a = amount_a as int;
    let b = amount_b as int;
    assert((ra + a) * rb - (rb + b) * ra == a * rb - b * ra) by (nonlinear_arith);
}

/// Deposits `amount_a` and `amount_b` and mints LP shares for them. The first
/// deposit earns `floor(sqrt(amount_a * amount_b)) - MINIMUM_LIQUIDITY` and locks
/// `MINIMUM_LIQUIDITY` more; a later one earns the smaller proportional claim.
/// On failure the pool is left as it was.
pub fn liquidity_add(ctx: &mut AddLiquidity, amount_a: u64, amount_b: u64, min_lp_tokens: u64) -> (r: Result<u64, MinidexError>)
    ensures
        match add_result(old(ctx).pool, amount_a, amount_b, min_lp_tokens) {
            Ok((new_pool, lp_minted)) => r == Ok::<u64, MinidexError>(lp_minted)
                && final(ctx).pool == new_pool,
            Err(e) => r == Err::<u64, MinidexError>(e) && final(ctx).pool == old(ctx).pool,
        },
        old(ctx).pool.wf() ==> final(ctx).pool.wf(),
{
    if amount_a == 0 || amount_b == 0 {
        return Err(MinidexError::ZeroAmount);
    }
    let supply = ctx.pool.total_lp_supply;
    let ghost pool = ctx.pool;
    let lp_tokens: u64;
    let locked: u64;
    if supply == 0 {
        proof {
            lemma_mul_u64_fits(amount_a, amount_b);
        }
        let product: u128 = (amount_a as u128) * (amount_b as u128);
        let raw = integer_sqrt(product);
        proof {
            if raw > u64::MAX {
                assert(raw * raw > u64::MAX * u64::MAX) by (nonlinear_arith)
                    requires
                        raw > u64::MAX,
                ;
            }
        }
        if raw <= MINIMUM_LIQUIDITY as u128 {
            return Err(MinidexError::InsufficientLiquidity);
        }
        lp_tokens = (raw as u64) - MINIMUM_LIQUIDITY;
        locked = MINIMUM_LIQUIDITY;
    } else {
        let from_a = match mul_div_floor(amount_a, supply, ctx.pool.reserve_a) {
            Some(v) => v,
            None => {
                return Err(MinidexError::MathOverflow);
            },
        };
        let from_b = match mul_div_floor(amount_b, supply, ctx.pool.reserve_b) {
            Some(v) => v,
            None => {
                return Err(MinidexError::MathOverflow);
            },
        };
        let lp_wide = if from_a < from_b {
            from_a
        } else {
            from_b
        };
        lp_tokens = match narrow_u64(lp_wide) {
            Some(v) => v,
            None => {
                return Err(MinidexError::MathOverflow);
            },
        };
        locked = 0;
    }
    if lp_tokens < min_lp_tokens {
        return Err(MinidexError::SlippageExceeded);
    }
    if lp_tokens == 0 {
        return Err(MinidexError::ZeroLPTokens);
    }
    let new_reserve_a = match ctx.pool.reserve_a.checked_add(amount_a) {
        Some(v) => v,
        None => {
            return Err(MinidexError::MathOverflow);
        },
    };
    let new_reserve_b = match ctx.pool.reserve_b.checked_add(amount_b) {
        Some(v) => v,
        None => {
            return Err(MinidexError::MathOverflow);
        },
    };
    let total_lp_increase = match lp_tokens.checked_add(locked) {
        Some(v) => v,
        None => {
            return Err(MinidexError::MathOverflow);
        },
    };
    let new_supply = match supply.checked_add(total_lp_increase) {
        Some(v) => v,
        None => {
            return Err(MinidexError::MathOverflow);
        },
    };
    proof {
        if pool.wf() {
            lemma_add_preserves_wf(pool, amount_a, amount_b, min_lp_tokens);
        }
    }
    ctx.pool.reserve_a = new_reserve_a;
    ctx.pool.reserve_b = new_reserve_b;
    ctx.pool.total_lp_supply = new_supply;
    Ok(lp_tokens)
}

} // verus!
