use vstd::prelude::*;
use crate::errors::MinidexError;
use crate::math::{lemma_mul_div_lt, mul_div_floor, narrow_u64};
use crate::state::Pool;

verus! {

/// What a withdrawal reads: the pool and the caller's LP share balance.
#[derive(Clone, Copy, Debug)]
pub struct RemoveLiquidity {
    pub pool: Pool,
    pub user_lp_balance: u64,
}

/// The outcome of redeeming `lp_tokens` shares: the new pool and the amounts
/// `(floor(lp_tokens * reserve_a / supply), floor(lp_tokens * reserve_b / supply))`
/// paid out, or the first check that fails.
pub open spec fn remove_result(ctx: RemoveLiquidity, lp_tokens: u64, min_amount_a: u64, min_amount_b: u64) -> Result<(Pool, (u64, u64)), MinidexError> {
    let pool = ctx.pool;
    let supply = pool.total_lp_supply as int;
    if lp_tokens == 0 {
        Err(MinidexError::ZeroLPTokens)
    } else if supply == 0 {
        Err(MinidexError::EmptyPool)
    } else if pool.reserve_a == 0 || pool.reserve_b == 0 {
        Err(MinidexError::InsufficientLiquidity)
    } else if ctx.user_lp_balance < lp_tokens {
        Err(MinidexError::InsufficientLPTokens)
    } else {
        let amount_a = lp_tokens * pool.reserve_a / supply;
        let amount_b = lp_tokens * pool.reserve_b / supply;
        if amount_a > u64::MAX || amount_b > u64::MAX {
            Err(MinidexError::MathOverflow)
        } else if amount_a < min_amount_a || amount_b < min_amount_b {
            Err(MinidexError::SlippageExceeded)
        } else if amount_a > pool.reserve_a || amount_b > pool.reserve_b {
            Err(MinidexError::InsufficientLiquidity)
        } else if lp_tokens > supply {
            Err(MinidexError::MathOverflow)
        } else {
            Ok(
                (
                    Pool {
                        reserve_a: (pool.reserve_a - amount_a) as u64,
                        reserve_b: (pool.reserve_b - amount_b) as u64,
                        total_lp_supply: (supply - lp_tokens) as u64,
                        ..pool
                    },
                    (amount_a as u64, amount_b as u64),
                ),
            )
        }
    }
}

/// Redeeming part of the supply leaves part of each reserve; redeeming all of
/// it empties both.
proof fn lemma_share_of_reserve(lp: int, reserve: int, supply: int)
    requires
        0 < lp <= supply,
        0 < reserve,
    ensures
        lp < supply ==> lp * reserve / supply < reserve,
        lp == supply ==> lp * reserve / supply == reserve,
{
    if lp < supply {
        lemma_mul_div_lt(lp, reserve, supply);
    } else {
        assert(supply * reserve / supply == reserve) by (nonlinear_arith)
            requires
                supply > 0,
        ;
    }
}

/// A successful withdrawal keeps a well-formed pool well-formed.
pub proof fn lemma_remove_preserves_wf(ctx: RemoveLiquidity, lp_tokens: u64, min_amount_a: u64, min_amount_b: u64)
    requires
        ctx.pool.wf(),
        remove_result(ctx, lp_tokens, min_amount_a, min_amount_b) is Ok,
    ensures
        remove_result(ctx, lp_tokens, min_amount_a, min_amount_b)->Ok_0.0.wf(),
{
    let pool = ctx.pool;
    lemma_share_of_reserve(lp_tokens as int, pool.reserve_a as int, pool.total_lp_supply as int);
    lemma_share_of_reserve(lp_tokens as int, pool.reserve_b as int, pool.total_lp_supply as int);
}

/// A withdrawal moves the price `reserve_a / reserve_b` by rounding alone: the
/// cross difference `reserve_a' * reserve_b - reserve_b' * reserve_a` lies
/// strictly between `-reserve_a` and `reserve_b`, where an exact proportional
/// withdrawal would make it zero.
pub proof fn lemma_remove_price_drift(ctx: RemoveLiquidity, lp_tokens: u64, min_amount_a: u64, min_amount_b: u64)
    requires
        remove_result(ctx, lp_tokens, min_amount_a, min_amount_b) is Ok,
    ensures
        ({
            let new_pool = remove_result(ctx, lp_tokens, min_amount_a, min_amount_b)->Ok_0.0;
            let drift = new_pool.reserve_a * ctx.pool.reserve_b - new_pool.reserve_b * ctx.pool.reserve_a;
            -(ctx.pool.reserve_a as int) < drift < ctx.pool.reserve_b
        }),
{
    let pool = ctx.pool;
    let t = pool.total_lp_supply as int;
    let ra = pool.reserve_a as int;
    let rb = pool.reserve_b as int;
    let lp = lp_tokens as int;
    let qa = lp * ra / t;
    let qb = lp * rb / t;
    let ea = lp * ra - qa * t;
    let eb = lp * rb - qb * t;
    assert(0 <= ea < t) by (nonlinear_arith)
        requires
            t > 0,
            qa == lp * ra / t,
            ea == lp * ra - qa * t,
    ;
    assert(0 <= eb < t) by (nonlinear_arith)
        requires
            t > 0,
            qb == lp * rb / t,
            eb == lp * rb - qb * t,
    ;
    let d = (ra - qa) * rb - (rb - qb) * ra;
    assert(t * d == rb * ea - ra * eb) by (nonlinear_arith)
        requires
            d == (ra - qa) * rb - (rb - qb) * ra,
            ea == lp * ra - qa * t,
            eb == lp * rb - qb * t,
    ;
    assert(-ra < d < rb) by (nonlinear_arith)
        requires
            t * d == rb * ea - ra * eb,
            0 <= ea < t,
            0 <= eb < t,
            ra > 0,
            rb > 0,
    ;
}

/// Redeems `lp_tokens` shares for the proportional part of both reserves.
/// On failure the pool is left as it was.
pub fn liquidity_remove(ctx: &mut RemoveLiquidity, lp_tokens: u64, min_amount_a: u64, min_amount_b: u64) -> (r: Result<(u64, u64), MinidexError>)
    ensures
        match remove_result(*old(ctx), lp_tokens, min_amount_a, min_amount_b) {
            Ok((new_pool, amounts)) => r == Ok::<(u64, u64), MinidexError>(amounts)
                && final(ctx).pool == new_pool,
            Err(e) => r == Err::<(u64, u64), MinidexError>(e) && final(ctx).pool == old(ctx).pool,
        },
        final(ctx).user_lp_balance == old(ctx).user_lp_balance,
        old(ctx).pool.wf() ==> final(ctx).pool.wf(),
{
    if lp_tokens == 0 {
        return Err(MinidexError::ZeroLPTokens);
    }
    let supply = ctx.pool.total_lp_supply;
    let reserve_a = ctx.pool.reserve_a;
    let reserve_b = ctx.pool.reserve_b;
    if supply == 0 {
        return Err(MinidexError::EmptyPool);
    }
    if reserve_a == 0 || reserve_b == 0 {
        return Err(MinidexError::InsufficientLiquidity);
    }
    if ctx.user_lp_balance < lp_tokens {
        return Err(MinidexError::InsufficientLPTokens);
    }
    let wide_a = match mul_div_floor(lp_tokens, reserve_a, supply) {
        Some(v) => v,
        None => {
            return Err(MinidexError::MathOverflow);
        },
    };
    let amount_a = match narrow_u64(wide_a) {
        Some(v) => v,
        None => {
            return Err(MinidexError::MathOverflow);
        },
    };
    let wide_b = match mul_div_floor(lp_tokens, reserve_b, supply) {
        Some(v) => v,
        None => {
            return Err(MinidexError::MathOverflow);
        },
    };
    let amount_b = match narrow_u64(wide_b) {
        Some(v) => v,
        None => {
            return Err(MinidexError::MathOverflow);
        },
    };
    if amount_a < min_amount_a || amount_b < min_amount_b {
        return Err(MinidexError::SlippageExceeded);
    }
    if amount_a > reserve_a || amount_b > reserve_b {
        return Err(MinidexError::InsufficientLiquidity);
    }
    let new_supply = match supply.checked_sub(lp_tokens) {
        Some(v) => v,
        None => {
            return Err(MinidexError::MathOverflow);
        },
    };
    proof {
        if ctx.pool.wf() {
            lemma_remove_preserves_wf(*ctx, lp_tokens, min_amount_a, min_amount_b);
        }
    }
    ctx.pool.reserve_a = reserve_a - amount_a;
    ctx.pool.reserve_b = reserve_b - amount_b;
    ctx.pool.total_lp_supply = new_supply;
    Ok((amount_a, amount_b))
}

} // verus!
