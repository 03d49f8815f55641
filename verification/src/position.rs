//! The position snapshot the math core reads: the owning NFT and pool
//! identities, the tick range, its liquidity, and the fee accumulators
//! last observed inside the range.

use vstd::prelude::*;

use crate::tick_math::{MIN_TICK, MAX_TICK};

verus! {

#[derive(Debug, Clone)]
pub struct PositionState {
    pub bump: u8,
    pub nft_mint: [u8; 32],
    pub pool_id: [u8; 32],
    pub tick_lower_index: i32,
    pub tick_upper_index: i32,
    pub liquidity: u128,
    pub fee_growth_inside_0_last_x64: u128,
    pub fee_growth_inside_1_last_x64: u128,
    pub token_fees_owed_0: u64,
    pub token_fees_owed_1: u64,
}

impl PositionState {
    /// The invariant every stored position keeps: a proper, in-bounds
    /// tick range aligned to the pool's spacing.
    pub open spec fn well_formed(self, tick_spacing: u16) -> bool {
        &&& MIN_TICK <= self.tick_lower_index < self.tick_upper_index <= MAX_TICK
        &&& tick_spacing >= 1
        &&& (self.tick_lower_index as int) % (tick_spacing as int) == 0
        &&& (self.tick_upper_index as int) % (tick_spacing as int) == 0
    }
}

} // verus!
