//! A single tick record: the signed liquidity change applied when the
//! price crosses it, and the accumulators settled against it.

use vstd::prelude::*;

verus! {

/// Number of reward accumulators a tick carries.
pub const REWARD_NUM: usize = 3;

#[derive(Debug, Clone, Copy)]
pub struct TickState {
    pub tick: i32,
    /// Signed liquidity change applied when the price crosses this tick.
    pub liquidity_net: i128,
    /// Total liquidity referencing this tick from either side; a tick
    /// is initialized exactly when this is positive.
    pub liquidity_gross: u128,
    pub feee_growth_outside_0_x64: u128,
    pub fee_growth_outside_1_x64: u128,
    pub reward_growths_outside_x64: [u128; REWARD_NUM],
    pub padding: [u32; 13],
}

impl TickState {
    /// Whether any position references this tick; an uninitialized
    /// tick behaves as the identity when crossed.
    pub fn is_initialized(&self) -> (r: bool)
        ensures
            r == (self.liquidity_gross > 0),
    {
        self.liquidity_gross > 0
    }
}

} // verus!
