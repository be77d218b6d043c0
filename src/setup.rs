use vstd::prelude::*;
use crate::state::{Address, Pool};

verus! {

/// Records the vault created for token A.
#[derive(Clone, Copy, Debug)]
pub struct SetupVaultA {
    pub pool: Pool,
    pub token_a_vault: Address,
}

/// Records the vault created for token B.
#[derive(Clone, Copy, Debug)]
pub struct SetupVaultB {
    pub pool: Pool,
    pub token_b_vault: Address,
}

/// Records the LP share mint created for the pool.
#[derive(Clone, Copy, Debug)]
pub struct SetupLpMint {
    pub pool: Pool,
    pub lp_mint: Address,
}

/// Stores the token A vault's identity in the pool; nothing else changes.
pub fn initialize_a(ctx: &mut SetupVaultA)
    ensures
        final(ctx).pool == (Pool { token_a_vault: old(ctx).token_a_vault, ..old(ctx).pool }),
        final(ctx).token_a_vault == old(ctx).token_a_vault,
        old(ctx).pool.wf() ==> final(ctx).pool.wf(),
{
    ctx.pool.token_a_vault = ctx.token_a_vault;
}

/// Stores the token B vault's identity in the pool; nothing else changes.
pub fn initialize_vault_b(ctx: &mut SetupVaultB)
    ensures
        final(ctx).pool == (Pool { token_b_vault: old(ctx).token_b_vault, ..old(ctx).pool }),
        final(ctx).token_b_vault == old(ctx).token_b_vault,
        old(ctx).pool.wf() ==> final(ctx).pool.wf(),
{
    ctx.pool.token_b_vault = ctx.token_b_vault;
}

/// Stores the LP mint's identity in the pool; nothing else changes.
pub fn initialize_lp_mint(ctx: &mut SetupLpMint)
    ensures
        final(ctx).pool == (Pool { lp_mint: old(ctx).lp_mint, ..old(ctx).pool }),
        final(ctx).lp_mint == old(ctx).lp_mint,
        old(ctx).pool.wf() ==> final(ctx).pool.wf(),
{
    ctx.pool.lp_mint = ctx.lp_mint;
}

} // verus!
