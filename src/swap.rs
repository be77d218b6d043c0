use vstd::prelude::*;
use crate::errors::MinidexError;
use crate::state::{Pool, SwapDirection};
use crate::utils::{
    calculate_swap_output, fee_adjusted_in, lemma_fee_adjusted_bounds, swap_output, swap_quote,
};

verus! {

/// What a swap reads: the pool and the caller's balances of the two tokens.
#[derive(Clone, Copy, Debug)]
pub struct Swap {
    pub pool: Pool,
    pub user_token_a_balance: u64,
    pub user_token_b_balance: u64,
}

impl Swap {
    /// The caller's balance of the token that goes in.
    pub open spec fn balance_in(&self, direction: SwapDirection) -> u64 {
        match direction {
            SwapDirection::AToB => self.user_token_a_balance,
            SwapDirection::BToA => self.user_token_b_balance,
        }
    }
}

/// The pool after `amount_in` entered and `amount_out` left it.
pub open spec fn apply_swap(pool: Pool, direction: SwapDirection, amount_in: u64, amount_out: u64) -> Pool {
    match direction {
        SwapDirection::AToB => Pool {
            reserve_a: (pool.reserve_a + amount_in) as u64,
            reserve_b: (pool.reserve_b - amount_out) as u64,
            ..pool
        },
        SwapDirection::BToA => Pool {
            reserve_a: (pool.reserve_a - amount_out) as u64,
            reserve_b: (pool.reserve_b + amount_in) as u64,
            ..pool
        },
    }
}

/// The outcome of a swap: the new pool and the output amount, or the first
/// check that fails.
pub open spec fn swap_result(ctx: Swap, amount_in: u64, min_amount_out: u64, direction: SwapDirection) -> Result<(Pool, u64), MinidexError> {
    let pool = ctx.pool;
    let (reserve_in, reserve_out) = pool.swap_reserves(direction);
    if amount_in == 0 {
        Err(MinidexError::ZeroSwapAmount)
    } else if pool.reserve_a == 0 || pool.reserve_b == 0 {
        Err(MinidexError::InsufficientLiquidity)
    } else {
        match swap_output(pool, amount_in, direction) {
            Err(e) => Err(e),
            Ok(amount_out) => if amount_out < min_amount_out {
                Err(MinidexError::SlippageExceeded)
            } else if amount_out >= reserve_out {
                Err(MinidexError::InsufficientLiquidity)
            } else if ctx.balance_in(direction) < amount_in {
                Err(MinidexError::InsufficientUserBalance)
            } else if reserve_in + amount_in > u64::MAX {
                Err(MinidexError::MathOverflow)
            } else {
                Ok((apply_swap(pool, direction, amount_in, amount_out), amount_out))
            },
        }
    }
}

/// With both reserves positive, a quote always stays strictly below the output
/// reserve: the check that guards against draining it cannot be reached by a
/// priced swap.
pub proof fn lemma_quote_below_reserve(pool: Pool, amount_in: u64, direction: SwapDirection)
    requires
        pool.reserve_a > 0,
        pool.reserve_b > 0,
        swap_output(pool, amount_in, direction) is Ok,
    ensures
        swap_output(pool, amount_in, direction)->Ok_0 < pool.swap_reserves(direction).1,
{
    let (reserve_in, reserve_out) = pool.swap_reserves(direction);
    let fa = fee_adjusted_in(amount_in as int, pool.fee_rate as int);
    lemma_fee_adjusted_bounds(amount_in as int, pool.fee_rate as int);
    crate::math::lemma_mul_div_lt(fa, reserve_out as int, reserve_in + fa);
    crate::utils::lemma_swap_quote_bounds(amount_in as int, pool.fee_rate as int, reserve_in as int, reserve_out as int);
}

/// A swap whose quote would reach the output reserve fails with
/// `InsufficientLiquidity`, whatever the slippage floor: either a reserve is
/// already empty, or the quote cannot reach it at all.
pub proof fn lemma_draining_swap_fails(ctx: Swap, amount_in: u64, min_amount_out: u64, direction: SwapDirection)
    requires
        amount_in > 0,
        swap_output(ctx.pool, amount_in, direction) is Ok,
        swap_output(ctx.pool, amount_in, direction)->Ok_0 >= ctx.pool.swap_reserves(direction).1,
    ensures
        swap_result(ctx, amount_in, min_amount_out, direction) == Err::<(Pool, u64), MinidexError>(
            MinidexError::InsufficientLiquidity,
        ),
{
    if ctx.pool.reserve_a > 0 && ctx.pool.reserve_b > 0 {
        lemma_quote_below_reserve(ctx.pool, amount_in, direction);
    }
}

/// A successful swap leaves both reserves positive.
pub proof fn lemma_swap_never_drains(ctx: Swap, amount_in: u64, min_amount_out: u64, direction: SwapDirection)
    requires
        swap_result(ctx, amount_in, min_amount_out, direction) is Ok,
    ensures
        ({
            let new_pool = swap_result(ctx, amount_in, min_amount_out, direction)->Ok_0.0;
            new_pool.reserve_a > 0 && new_pool.reserve_b > 0
        }),
{
}

/// A successful swap never lowers `reserve_a * reserve_b`: the whole input
/// enters the reserves while only its fee-discounted part is priced.
pub proof fn lemma_swap_product_nondecreasing(ctx: Swap, amount_in: u64, min_amount_out: u64, direction: SwapDirection)
    requires
        swap_result(ctx, amount_in, min_amount_out, direction) is Ok,
    ensures
        ({
            let new_pool = swap_result(ctx, amount_in, min_amount_out, direction)->Ok_0.0;
            new_pool.reserve_a * new_pool.reserve_b >= ctx.pool.reserve_a * ctx.pool.reserve_b
        }),
{
    let pool = ctx.pool;
    let (reserve_in, reserve_out) = pool.swap_reserves(direction);
    let fee = pool.fee_rate as int;
    let fa = fee_adjusted_in(amount_in as int, fee);
    let out = swap_quote(amount_in as int, fee, reserve_in as int, reserve_out as int);
    let rin = reserve_in as int;
    let rout = reserve_out as int;
    let ain = amount_in as int;
    lemma_fee_adjusted_bounds(ain, fee);
    crate::utils::lemma_swap_quote_bounds(ain, fee, rin, rout);
    assert(out == swap_output(pool, amount_in, direction)->Ok_0);
    assert(out * (rin + fa) <= fa * rout) by (nonlinear_arith)
        requires
            out == fa * rout / (rin + fa),
            rin + fa > 0,
    ;
    assert((rin + ain) * (rout - out) >= rin * rout) by (nonlinear_arith)
        requires
            out * (rin + fa) <= fa * rout,
            0 <= fa <= ain,
            0 <= out < rout,
            0 <= rin,
    ;
    match direction {
        SwapDirection::AToB => {},
        SwapDirection::BToA => {
            assert((rin + ain) * (rout - out) == (rout - out) * (rin + ain)) by (nonlinear_arith);
            assert(rin * rout == rout * rin) by (nonlinear_arith);
        },
    }
}

/// A successful swap keeps a well-formed pool well-formed.
pub proof fn lemma_swap_preserves_wf(ctx: Swap, amount_in: u64, min_amount_out: u64, direction: SwapDirection)
    requires
        ctx.pool.wf(),
        swap_result(ctx, amount_in, min_amount_out, direction) is Ok,
    ensures
        swap_result(ctx, amount_in, min_amount_out, direction)->Ok_0.0.wf(),
{
}

/// Swaps `amount_in` of one token for the other at the constant-product price.
/// On success the pool's reserves move by the full input and the output; on
/// failure the pool is left as it was.
pub fn token_swap(ctx: &mut Swap, amount_in: u64, min_amount_out: u64, direction: SwapDirection) -> (r: Result<u64, MinidexError>)
    ensures
        match swap_result(*old(ctx), amount_in, min_amount_out, direction) {
            Ok((new_pool, amount_out)) => r == Ok::<u64, MinidexError>(amount_out)
                && final(ctx).pool == new_pool,
            Err(e) => r == Err::<u64, MinidexError>(e) && final(ctx).pool == old(ctx).pool,
        },
        final(ctx).user_token_a_balance == old(ctx).user_token_a_balance,
        final(ctx).user_token_b_balance == old(ctx).user_token_b_balance,
        old(ctx).pool.wf() ==> final(ctx).pool.wf(),
{
    if amount_in == 0 {
        return Err(MinidexError::ZeroSwapAmount);
    }
    if ctx.pool.reserve_a == 0 || ctx.pool.reserve_b == 0 {
        return Err(MinidexError::InsufficientLiquidity);
    }
    let amount_out = match calculate_swap_output(&ctx.pool, amount_in, direction) {
        Ok(v) => v,
        Err(e) => {
            return Err(e);
        },
    };
    if amount_out < min_amount_out {
        return Err(MinidexError::SlippageExceeded);
    }
    let (reserve_in, reserve_out, balance_in) = match direction {
        SwapDirection::AToB => (ctx.pool.reserve_a, ctx.pool.reserve_b, ctx.user_token_a_balance),
        SwapDirection::BToA => (ctx.pool.reserve_b, ctx.pool.reserve_a, ctx.user_token_b_balance),
    };
    if amount_out >= reserve_out {
        return Err(MinidexError::InsufficientLiquidity);
    }
    if balance_in < amount_in {
        return Err(MinidexError::InsufficientUserBalance);
    }
    let new_in = match reserve_in.checked_add(amount_in) {
        Some(v) => v,
        None => {
            return Err(MinidexError::MathOverflow);
        },
    };
    let new_out = reserve_out - amount_out;
    proof {
        if ctx.pool.wf() {
            lemma_swap_preserves_wf(*ctx, amount_in, min_amount_out, direction);
        }
    }
    match direction {
        SwapDirection::AToB => {
            ctx.pool.reserve_a = new_in;
            ctx.pool.reserve_b = new_out;
        },
        SwapDirection::BToA => {
            ctx.pool.reserve_b = new_in;
            ctx.pool.reserve_a = new_out;
        },
    }
    Ok(amount_out)
}

} // verus!
