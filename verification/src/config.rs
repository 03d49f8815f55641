//! The per-fee-tier configuration snapshot: trade and protocol fee
//! rates over a fixed denominator, and the tick spacing every pool
//! created against this tier inherits.

use vstd::prelude::*;

verus! {

#[derive(Debug, Clone)]
pub struct AmmConfig {
    pub bump: u8,
    pub index: u16,
    pub admin: [u8; 32],
    pub trade_fee_rate: u32,
    pub protocol_fee_rate: u32,
    pub tick_spacing: u16,
}

} // verus!
