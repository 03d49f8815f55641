//! Tick-array pages: fixed blocks of sixty tick records anchored at a
//! page-aligned start tick, and the pure indexing arithmetic that maps
//! a tick to its page and slot. The page boundary uses floor division
//! toward negative infinity, so negative ticks land in negative pages.

use vstd::prelude::*;
use vstd::arithmetic::div_mod::{lemma_fundamental_div_mod, lemma_fundamental_div_mod_converse};

use crate::tick::TickState;

verus! {

/// Tick records per page.
pub const TICK_ARRAY_SIZE: i32 = 60;
/// Tick records per page, as a length.
pub const TICK_ARRAY_SIZE_USIZE: usize = 60;

/// One page of tick records. The canonical serialized form, with its
/// discriminator tag and padding, belongs to the host layer; this is
/// the value the math core reads.
#[derive(Debug, Clone)]
pub struct TickArrayState {
    pub pool_id: [u8; 32],
    pub start_tick_index: i32,
    pub ticks: [TickState; TICK_ARRAY_SIZE_USIZE],
    pub initialized_tick_count: u8,
}

/// Floor division of `tick` by a positive span, rounding toward
/// negative infinity (not toward zero).
fn floor_div_by_span(tick: i32, span: i32) -> (q: i32)
    requires
        1 <= span,
        -0x40000000 <= tick <= 0x40000000,
    ensures
        q == (tick as int) / (span as int),
        -0x40000000 <= q <= 0x40000000,
{
    if tick >= 0 {
        let qpos: u32 = (tick as u32) / (span as u32);
        proof {
            vstd::arithmetic::div_mod::lemma_div_is_ordered(0, tick as int, span as int);
            vstd::arithmetic::div_mod::lemma_div_nonincreasing(tick as int, span as int);
        }
        qpos as i32
    } else {
        let neg: u32 = (-(tick as i64)) as u32;
        let qneg: u32 = neg / (span as u32);
        let rem: u32 = neg % (span as u32);
        proof {
            let t: int = tick as int;
            let s: int = span as int;
            lemma_fundamental_div_mod(neg as int, s);
            if rem == 0 {
                assert(t == (-(qneg as int)) * s) by (nonlinear_arith)
                    requires
                        -t == (qneg as int) * s,
                ;
                lemma_fundamental_div_mod_converse(t, s, -(qneg as int), 0);
            } else {
                assert(t == (-(qneg as int) - 1) * s + (s - rem)) by (nonlinear_arith)
                    requires
                        -t == (qneg as int) * s + rem,
                ;
                lemma_fundamental_div_mod_converse(t, s, -(qneg as int) - 1, s - rem);
            }
            vstd::arithmetic::div_mod::lemma_div_nonincreasing(neg as int, s);
            assert(qneg <= (qneg as int) * s) by (nonlinear_arith)
                requires
                    s >= 1 && qneg >= 0,
            ;
        }
        if rem == 0 {
            -(qneg as i32)
        } else {
            -(qneg as i32) - 1
        }
    }
}

impl TickArrayState {
    /// The page-aligned start tick of the page holding `tick`:
    /// `floor(tick / (60·spacing)) · (60·spacing)`, with floor division
    /// toward negative infinity.
    pub open spec fn array_start_index_spec(tick: i32, tick_spacing: i32) -> int {
        let span = 60 * (tick_spacing as int);
        ((tick as int) / span) * span
    }

    /// Slot of `tick` inside its page: always in `[0, 60)`.
    pub open spec fn tick_offset_in_array_spec(tick: i32, tick_spacing: i32) -> int {
        ((tick as int) - Self::array_start_index_spec(tick, tick_spacing)) / (tick_spacing as int)
    }

    /// Start tick of the page that holds `tick`.
    pub fn get_array_start_index(tick: i32, tick_spacing: i32) -> (r: i32)
        requires
            1 <= tick_spacing <= 0xffff,
            crate::tick_math::MIN_TICK <= tick <= crate::tick_math::MAX_TICK,
        ensures
            r == Self::array_start_index_spec(tick, tick_spacing),
            r <= tick < r + 60 * (tick_spacing as int),
    {
        let ticks_in_array: i32 = TICK_ARRAY_SIZE * tick_spacing;
        let q: i32 = floor_div_by_span(tick, ticks_in_array);
        proof {
            let t: int = tick as int;
            let s: int = ticks_in_array as int;
            lemma_fundamental_div_mod(t, s);
            vstd::arithmetic::div_mod::lemma_mod_bound(t, s);
        }
        q * ticks_in_array
    }

    /// Slot index of `tick` inside its page.
    pub fn get_tick_offset_in_array(tick: i32, tick_spacing: i32) -> (r: usize)
        requires
            1 <= tick_spacing <= 0xffff,
            crate::tick_math::MIN_TICK <= tick <= crate::tick_math::MAX_TICK,
        ensures
            r == Self::tick_offset_in_array_spec(tick, tick_spacing),
            r < 60,
    {
        let start_index: i32 = Self::get_array_start_index(tick, tick_spacing);
        let from_start: u32 = (tick - start_index) as u32;
        let offset: u32 = from_start / (tick_spacing as u32);
        proof {
            let d: int = from_start as int;
            let s: int = tick_spacing as int;
            // The distance into the page is below the page span, so the
            // slot index is below sixty.
            vstd::arithmetic::div_mod::lemma_div_is_ordered(d, 60 * s - 1, s);
            lemma_fundamental_div_mod(60 * s - 1, s);
            assert((60 * s - 1) / s == 59) by {
                lemma_fundamental_div_mod_converse(60 * s - 1, s, 59, s - 1);
            }
        }
        offset as usize
    }
}

} // verus!
