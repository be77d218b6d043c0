use vstd::prelude::*;
use crate::constants::MAX_FEE_RATE;

verus! {

/// A 32-byte account identity (a token mint, a vault, an authority).
#[derive(Clone, Copy, Debug, PartialEq, Eq)]
pub struct Address {
    pub bytes: [u8; 32],
}

impl Address {
    pub fn new(bytes: [u8; 32]) -> (r: Address)
        ensures
            r.bytes@ == bytes@,
    {
        Address { bytes }
    }

    /// Byte-wise equality of two identities.
    pub fn same_as(&self, other: &Address) -> (r: bool)
        ensures
            r == (self.bytes@ == other.bytes@),
    {
        let mut i: usize = 0;
        while i < 32
            invariant
                0 <= i <= 32,
                self.bytes@.len() == 32,
                other.bytes@.len() == 32,
                forall|j: int| 0 <= j < i ==> self.bytes@[j] == other.bytes@[j],
            decreases 32 - i,
        {
            if self.bytes[i] != other.bytes[i] {
                return false;
            }
            i = i + 1;
        }
        assert(self.bytes@ =~= other.bytes@);
        true
    }
}

/// Which token a swap takes in.
#[derive(Clone, Copy, Debug, PartialEq, Eq, Structural)]
pub enum SwapDirection {
    /// Token A in, token B out.
    AToB,
    /// Token B in, token A out.
    BToA,
}

/// The record of one token pair's pool.
#[derive(Clone, Copy, Debug, PartialEq, Eq)]
pub struct Pool {
    pub authority: Address,
    pub token_a_mint: Address,
    pub token_b_mint: Address,
    pub token_a_vault: Address,
    pub token_b_vault: Address,
    pub lp_mint: Address,
    pub fee_rate: u16,
    pub bump: u8,
    pub reserve_a: u64,
    pub reserve_b: u64,
    pub total_lp_supply: u64,
}

impl Pool {
    /// Either the pool is empty (no reserves, no shares), or both reserves and
    /// the share supply are positive.
    pub open spec fn reserves_consistent(&self) -> bool {
        (self.total_lp_supply == 0 && self.reserve_a == 0 && self.reserve_b == 0) || (
        self.total_lp_supply > 0 && self.reserve_a > 0 && self.reserve_b > 0)
    }

    /// What every pool reached through this library satisfies.
    pub open spec fn wf(&self) -> bool {
        &&& self.fee_rate <= MAX_FEE_RATE
        &&& self.token_a_mint.bytes@ != self.token_b_mint.bytes@
        &&& self.reserves_consistent()
    }

    /// `(reserve_in, reserve_out)` for a swap in `direction`.
    pub open spec fn swap_reserves(&self, direction: SwapDirection) -> (u64, u64) {
        match direction {
            SwapDirection::AToB => (self.reserve_a, self.reserve_b),
            SwapDirection::BToA => (self.reserve_b, self.reserve_a),
        }
    }
}

/// In a well-formed pool the share supply is zero exactly when both reserves are.
pub proof fn lemma_empty_supply_iff_empty_reserves(pool: Pool)
    requires
        pool.wf(),
    ensures
        pool.total_lp_supply == 0 <==> (pool.reserve_a == 0 && pool.reserve_b == 0),
{
}

} // verus!
