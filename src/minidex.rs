use vstd::prelude::*;
use crate::add_liquidity::{add_result, liquidity_add, AddLiquidity};
use crate::constants::MAX_FEE_RATE;
use crate::errors::MinidexError;
use crate::initialize_pool::{fresh_pool, initialize, InitializePool};
use crate::remove_liquidity::{liquidity_remove, remove_result, RemoveLiquidity};
use crate::setup::{initialize_a, SetupLpMint, SetupVaultA, SetupVaultB};
use crate::state::{Address, Pool, SwapDirection};
use crate::swap::{swap_result, token_swap, Swap};

verus! {

/// Creates a pool; see `initialize`.
pub fn initialize_pool(ctx: &InitializePool, fee_rate: u16, token_a_vault: Address, token_b_vault: Address, lp_mint: Address) -> (r: Result<Pool, MinidexError>)
    ensures
        fee_rate > MAX_FEE_RATE ==> r == Err::<Pool, MinidexError>(MinidexError::InvalidFeeRate),
        fee_rate <= MAX_FEE_RATE && ctx.token_a_mint.bytes@ == ctx.token_b_mint.bytes@ ==> r
            == Err::<Pool, MinidexError>(MinidexError::IdenticalMints),
        fee_rate <= MAX_FEE_RATE && ctx.token_a_mint.bytes@ != ctx.token_b_mint.bytes@ ==> r
            == Ok::<Pool, MinidexError>(fresh_pool(*ctx, fee_rate, token_a_vault, token_b_vault, lp_mint)),
        r is Ok ==> r->Ok_0.wf(),
{
    initialize(ctx, fee_rate, token_a_vault, token_b_vault, lp_mint)
}

/// Records the token A vault; see `initialize_a`.
pub fn initialize_vault_a(ctx: &mut SetupVaultA)
    ensures
        final(ctx).pool == (Pool { token_a_vault: old(ctx).token_a_vault, ..old(ctx).pool }),
        final(ctx).token_a_vault == old(ctx).token_a_vault,
        old(ctx).pool.wf() ==> final(ctx).pool.wf(),
{
    initialize_a(ctx)
}

/// Records the token B vault; see `setup::initialize_vault_b`.
pub fn initialize_vault_b(ctx: &mut SetupVaultB)
    ensures
        final(ctx).pool == (Pool { token_b_vault: old(ctx).token_b_vault, ..old(ctx).pool }),
        final(ctx).token_b_vault == old(ctx).token_b_vault,
        old(ctx).pool.wf() ==> final(ctx).pool.wf(),
{
    crate::setup::initialize_vault_b(ctx)
}

/// Records the LP share mint; see `setup::initialize_lp_mint`.
pub fn initialize_lp_mint(ctx: &mut SetupLpMint)
    ensures
        final(ctx).pool == (Pool { lp_mint: old(ctx).lp_mint, ..old(ctx).pool }),
        final(ctx).lp_mint == old(ctx).lp_mint,
        old(ctx).pool.wf() ==> final(ctx).pool.wf(),
{
    crate::setup::initialize_lp_mint(ctx)
}

/// Deposits into the pool; see `liquidity_add`.
pub fn add_liquidity(ctx: &mut AddLiquidity, amount_a: u64, amount_b: u64, min_lp_tokens: u64) -> (r: Result<u64, MinidexError>)
    ensures
        match add_result(old(ctx).pool, amount_a, amount_b, min_lp_tokens) {
            Ok((new_pool, lp_minted)) => r == Ok::<u64, MinidexError>(lp_minted)
                && final(ctx).pool == new_pool,
            Err(e) => r == Err::<u64, MinidexError>(e) && final(ctx).pool == old(ctx).pool,
        },
        old(ctx).pool.wf() ==> final(ctx).pool.wf(),
{
    liquidity_add(ctx, amount_a, amount_b, min_lp_tokens)
}

/// Withdraws from the pool; see `liquidity_remove`.
pub fn remove_liquidity(ctx: &mut RemoveLiquidity, lp_tokens: u64, min_amount_a: u64, min_amount_b: u64) -> (r: Result<(u64, u64), MinidexError>)
    ensures
        match remove_result(*old(ctx), lp_tokens, min_amount_a, min_amount_b) {
            Ok((new_pool, amounts)) => r == Ok::<(u64, u64), MinidexError>(amounts)
                && final(ctx).pool == new_pool,
            Err(e) => r == Err::<(u64, u64), MinidexError>(e) && final(ctx).pool == old(ctx).pool,
        },
        final(ctx).user_lp_balance == old(ctx).user_lp_balance,
        old(ctx).pool.wf() ==> final(ctx).pool.wf(),
{
    liquidity_remove(ctx, lp_tokens, min_amount_a, min_amount_b)
}

/// Swaps one token for the other; see `token_swap`.
pub fn swap_tokens(ctx: &mut Swap, amount_in: u64, min_amount_out: u64, direction: SwapDirection) -> (r: Result<u64, MinidexError>)
    ensures
        match swap_result(*old(ctx), amount_in, min_amount_out, direction) {
            Ok((new_pool, amount_out)) => r == Ok::<u64, MinidexError>(amount_out)
                && final(ctx).pool == new_pool,
            Err(e) => r == Err::<u64, MinidexError>(e) && final(ctx).pool == old(ctx).pool,
        },
        final(ctx).user_token_a_balance == old(ctx).user_token_a_balance,
        final(ctx).user_token_b_balance == old(ctx).user_token_b_balance,
        old(ctx).pool.wf() ==> final(ctx).pool.wf(),
{
    token_swap(ctx, amount_in, min_amount_out, direction)
}

/// A deposit depends on the pool and its inputs alone: equal pools and equal
/// inputs give equal new pools and equal share counts.
pub proof fn lemma_add_deterministic(pool1: Pool, pool2: Pool, amount_a: u64, amount_b: u64, min_lp_tokens: u64)
    requires
        pool1 == pool2,
    ensures
        add_result(pool1, amount_a, amount_b, min_lp_tokens) == add_result(pool2, amount_a, amount_b, min_lp_tokens),
{
}

/// A withdrawal depends on its context and inputs alone.
pub proof fn lemma_remove_deterministic(ctx1: RemoveLiquidity, ctx2: RemoveLiquidity, lp_tokens: u64, min_amount_a: u64, min_amount_b: u64)
    requires
        ctx1 == ctx2,
    ensures
        remove_result(ctx1, lp_tokens, min_amount_a, min_amount_b) == remove_result(ctx2, lp_tokens, min_amount_a, min_amount_b),
{
}

/// A swap depends on its context and inputs alone.
pub proof fn lemma_swap_deterministic(ctx1: Swap, ctx2: Swap, amount_in: u64, min_amount_out: u64, direction: SwapDirection)
    requires
        ctx1 == ctx2,
    ensures
        swap_result(ctx1, amount_in, min_amount_out, direction) == swap_result(ctx2, amount_in, min_amount_out, direction),
{
}

} // verus!
