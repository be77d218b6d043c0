use vstd::prelude::*;
use crate::constants::MAX_FEE_RATE;
use crate::errors::MinidexError;
use crate::state::{Address, Pool};

verus! {

/// What pool creation reads: who creates it, the two token mints, and the bump
/// of the pool's derived address.
#[derive(Clone, Copy, Debug)]
pub struct InitializePool {
    pub authority: Address,
    pub token_a_mint: Address,
    pub token_b_mint: Address,
    pub bump: u8,
}

/// The empty pool that `ctx` and the given identities describe.
pub open spec fn fresh_pool(ctx: InitializePool, fee_rate: u16, token_a_vault: Address, token_b_vault: Address, lp_mint: Address) -> Pool {
    Pool {
        authority: ctx.authority,
        token_a_mint: ctx.token_a_mint,
        token_b_mint: ctx.token_b_mint,
        token_a_vault,
        token_b_vault,
        lp_mint,
        fee_rate,
        bump: ctx.bump,
        reserve_a: 0,
        reserve_b: 0,
        total_lp_supply: 0,
    }
}

/// Creates a pool with no reserves and no shares. The fee may not exceed
/// `MAX_FEE_RATE` and the two mints must differ.
pub fn initialize(ctx: &InitializePool, fee_rate: u16, token_a_vault: Address, token_b_vault: Address, lp_mint: Address) -> (r: Result<Pool, MinidexError>)
    ensures
        fee_rate > MAX_FEE_RATE ==> r == Err::<Pool, MinidexError>(MinidexError::InvalidFeeRate),
        fee_rate <= MAX_FEE_RATE && ctx.token_a_mint.bytes@ == ctx.token_b_mint.bytes@ ==> r
            == Err::<Pool, MinidexError>(MinidexError::IdenticalMints),
        fee_rate <= MAX_FEE_RATE && ctx.token_a_mint.bytes@ != ctx.token_b_mint.bytes@ ==> r
            == Ok::<Pool, MinidexError>(fresh_pool(*ctx, fee_rate, token_a_vault, token_b_vault, lp_mint)),
        r is Ok ==> r->Ok_0.wf(),
{
    if fee_rate > MAX_FEE_RATE {
        return Err(MinidexError::InvalidFeeRate);
    }
    if ctx.token_a_mint.same_as(&ctx.token_b_mint) {
        return Err(MinidexError::IdenticalMints);
    }
    Ok(
        Pool {
            authority: ctx.authority,
            token_a_mint: ctx.token_a_mint,
            token_b_mint: ctx.token_b_mint,
            token_a_vault,
            token_b_vault,
            lp_mint,
            fee_rate,
            bump: ctx.bump,
            reserve_a: 0,
            reserve_b: 0,
            total_lp_supply: 0,
        },
    )
}

} // verus!
