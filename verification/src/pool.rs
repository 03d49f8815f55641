//! The pool snapshot the math core reads: current liquidity, current
//! sqrt price and tick, spacing, fee accumulators, and the bitmap of
//! initialized tick-array pages. The serialized account form, with its
//! discriminator and padding, belongs to the host layer.

use vstd::prelude::*;

use crate::tick_math::{MIN_TICK, MAX_TICK, sqrt_price_at_tick_spec};

verus! {

#[derive(Debug, Clone)]
pub struct PoolState {
    pub bump: u8,
    pub amm_config: [u8; 32],
    pub creator: [u8; 32],
    pub token_mint_0: [u8; 32],
    pub token_mint_1: [u8; 32],
    pub token_vault_0: [u8; 32],
    pub token_vault_1: [u8; 32],
    pub mint_decimals_0: u8,
    pub mint_decimals_1: u8,
    pub tick_spacing: u16,
    pub liquidity: u128,
    pub sqrt_price_x64: u128,
    pub tick_current: i32,
    pub fee_growth_global_0_x64: u128,
    pub fee_growth_global_1_x64: u128,
    pub protocol_fees_token_0: u64,
    pub protocol_fees_token_1: u64,
    pub status: u8,
    pub tick_array_bitmap: [u64; 16],
}

impl PoolState {
    /// The invariant every stored pool keeps: the current tick is in
    /// bounds and the stored sqrt price is exactly the price of the
    /// stored tick — the two never drift apart.
    pub open spec fn well_formed(self) -> bool {
        &&& MIN_TICK <= self.tick_current <= MAX_TICK
        &&& self.sqrt_price_x64 == sqrt_price_at_tick_spec(self.tick_current)
        &&& self.tick_spacing >= 1
    }
}

} // verus!
