//! Bidirectional mapping between integer ticks and Q64.64 square-root
//! prices, plus the per-step price updates a swap loop needs.
//!
//! The price at tick `t` is `1.0001^t`; its square root in Q64.64 is
//! computed by a ladder of precomputed constants, one for each bit of
//! `|t|`, each equal to `2^64 / sqrt(1.0001^(2^i))`. The ladder yields
//! `2^64 / sqrt(1.0001)^|t|`; negative ticks use it directly, positive
//! ticks invert it as `2^128 / ratio`.

use vstd::prelude::*;
use vstd::arithmetic::div_mod::{
    lemma_fundamental_div_mod, lemma_fundamental_div_mod_converse, lemma_div_is_ordered,
    lemma_div_is_ordered_by_denominator, lemma_mod_multiples_basic,
};
use vstd::arithmetic::mul::lemma_mul_inequality;

use crate::big_num::P64;
use crate::error::ClmmError;
use crate::full_math::mul_div_round_up;

verus! {

/// Smallest tick index with a representable sqrt price.
pub const MIN_TICK: i32 = -443636;
/// Largest tick index with a representable sqrt price.
pub const MAX_TICK: i32 = 443636;

/// The sqrt price at `MIN_TICK`.
pub const MIN_SQRT_PRICE_X64: u128 = 4295048016;
/// The sqrt price at `MAX_TICK`.
pub const MAX_SQRT_PRICE_X64: u128 = 79226673521066979257578248091;

/// Running ladder ratio after the lowest bit of `abs_tick` is folded in:
/// `2^64 / sqrt(1.0001)` in Q64.64 when the bit is set, else `2^64`.
pub open spec fn ratio_after_0(abs_tick: u32) -> int {
    if abs_tick & 0x1 != 0 {
        0xfffcb933bd6fb800
    } else {
        0x10000000000000000
    }
}

pub open spec fn ratio_after_1(abs_tick: u32) -> int {
    if abs_tick & 0x2 != 0 {
        (ratio_after_0(abs_tick) * 0xfff97272373d4000) / 0x10000000000000000
    } else {
        ratio_after_0(abs_tick)
    }
}

pub open spec fn ratio_after_2(abs_tick: u32) -> int {
    if abs_tick & 0x4 != 0 {
        (ratio_after_1(abs_tick) * 0xfff2e50f5f657000) / 0x10000000000000000
    } else {
        ratio_after_1(abs_tick)
    }
}

pub open spec fn ratio_after_3(abs_tick: u32) -> int {
    if abs_tick & 0x8 != 0 {
        (ratio_after_2(abs_tick) * 0xffe5caca7e10f000) / 0x10000000000000000
    } else {
        ratio_after_2(abs_tick)
    }
}

pub open spec fn ratio_after_4(abs_tick: u32) -> int {
    if abs_tick & 0x10 != 0 {
        (ratio_after_3(abs_tick) * 0xffcb9843d60f7000) / 0x10000000000000000
    } else {
        ratio_after_3(abs_tick)
    }
}

pub open spec fn ratio_after_5(abs_tick: u32) -> int {
    if abs_tick & 0x20 != 0 {
        (ratio_after_4(abs_tick) * 0xff973b41fa98e800) / 0x10000000000000000
    } else {
        ratio_after_4(abs_tick)
    }
}

pub open spec fn ratio_after_6(abs_tick: u32) -> int {
    if abs_tick & 0x40 != 0 {
        (ratio_after_5(abs_tick) * 0xff2ea16466c9b000) / 0x10000000000000000
    } else {
        ratio_after_5(abs_tick)
    }
}

pub open spec fn ratio_after_7(abs_tick: u32) -> int {
    if abs_tick & 0x80 != 0 {
        (ratio_after_6(abs_tick) * 0xfe5dee046a9a3800) / 0x10000000000000000
    } else {
        ratio_after_6(abs_tick)
    }
}

pub open spec fn ratio_after_8(abs_tick: u32) -> int {
    if abs_tick & 0x100 != 0 {
        (ratio_after_7(abs_tick) * 0xfcbe86c7900bb000) / 0x10000000000000000
    } else {
        ratio_after_7(abs_tick)
    }
}

pub open spec fn ratio_after_9(abs_tick: u32) -> int {
    if abs_tick & 0x200 != 0 {
        (ratio_after_8(abs_tick) * 0xf987a7253ac65800) / 0x10000000000000000
    } else {
        ratio_after_8(abs_tick)
    }
}

pub open spec fn ratio_after_10(abs_tick: u32) -> int {
    if abs_tick & 0x400 != 0 {
        (ratio_after_9(abs_tick) * 0xf3392b0822bb6000) / 0x10000000000000000
    } else {
        ratio_after_9(abs_tick)
    }
}

pub open spec fn ratio_after_11(abs_tick: u32) -> int {
    if abs_tick & 0x800 != 0 {
        (ratio_after_10(abs_tick) * 0xe7159475a2caf000) / 0x10000000000000000
    } else {
        ratio_after_10(abs_tick)
    }
}

pub open spec fn ratio_after_12(abs_tick: u32) -> int {
    if abs_tick & 0x1000 != 0 {
        (ratio_after_11(abs_tick) * 0xd097f3bdfd2f2000) / 0x10000000000000000
    } else {
        ratio_after_11(abs_tick)
    }
}

pub open spec fn ratio_after_13(abs_tick: u32) -> int {
    if abs_tick & 0x2000 != 0 {
        (ratio_after_12(abs_tick) * 0xa9f746462d9f8000) / 0x10000000000000000
    } else {
        ratio_after_12(abs_tick)
    }
}

pub open spec fn ratio_after_14(abs_tick: u32) -> int {
    if abs_tick & 0x4000 != 0 {
        (ratio_after_13(abs_tick) * 0x70d869a156f31c00) / 0x10000000000000000
    } else {
        ratio_after_13(abs_tick)
    }
}

pub open spec fn ratio_after_15(abs_tick: u32) -> int {
    if abs_tick & 0x8000 != 0 {
        (ratio_after_14(abs_tick) * 0x31be135f97ed3200) / 0x10000000000000000
    } else {
        ratio_after_14(abs_tick)
    }
}

pub open spec fn ratio_after_16(abs_tick: u32) -> int {
    if abs_tick & 0x10000 != 0 {
        (ratio_after_15(abs_tick) * 0x9aa508b5b85a500) / 0x10000000000000000
    } else {
        ratio_after_15(abs_tick)
    }
}

pub open spec fn ratio_after_17(abs_tick: u32) -> int {
    if abs_tick & 0x20000 != 0 {
        (ratio_after_16(abs_tick) * 0x5d6af8dedc582c) / 0x10000000000000000
    } else {
        ratio_after_16(abs_tick)
    }
}

pub open spec fn ratio_after_18(abs_tick: u32) -> int {
    if abs_tick & 0x40000 != 0 {
        (ratio_after_17(abs_tick) * 0x2216e584f5fa) / 0x10000000000000000
    } else {
        ratio_after_17(abs_tick)
    }
}

/// The ladder ratio `2^64 / sqrt(1.0001)^abs_tick` in Q64.64, after all
/// nineteen bits of `abs_tick` are folded in.
pub open spec fn tick_ratio_spec(abs_tick: u32) -> int {
    ratio_after_18(abs_tick)
}

/// The absolute value of a tick index.
pub open spec fn abs_tick_spec(tick: i32) -> u32 {
    (if tick < 0 {
        -(tick as int)
    } else {
        tick as int
    }) as u32
}

/// 2^128, the numerator that inverts a Q64.64 ladder ratio.
pub open spec fn pow_2_128() -> int {
    0x10000000000000000u128 * 0x10000000000000000u128
}

/// The sqrt price this module assigns to `tick`: the ladder ratio for
/// negative ticks, its inversion `2^128 / ratio` for positive ones.
#[verifier::opaque]
pub open spec fn sqrt_price_at_tick_spec(tick: i32) -> int {
    if tick > 0 {
        pow_2_128() / tick_ratio_spec(abs_tick_spec(tick))
    } else {
        tick_ratio_spec(abs_tick_spec(tick))
    }
}

/// A ladder step keeps its lower bound: dividing a no-smaller product
/// by `2^64` gives a no-smaller quotient.
proof fn lemma_ladder_step_lower(r: int, m: int, b: int)
    requires
        0 <= b <= r,
        0 <= m,
    ensures
        (b * m) / 0x10000000000000000 <= (r * m) / 0x10000000000000000,
{
    lemma_mul_inequality(b, r, m);
    lemma_div_is_ordered(b * m, r * m, 0x10000000000000000);
}

/// One ladder step: multiply the running ratio by a Q64.64 constant and
/// shift back down, keeping the ratio within Q64.64 range.
fn mul_shift(ratio: u128, m: u64) -> (r: u128)
    requires
        ratio <= 0x10000000000000000,
    ensures
        r == (ratio * m) / 0x10000000000000000,
        r <= ratio,
{
    proof {
        assert(ratio * m <= 0x10000000000000000 * 0xffffffffffffffff) by (nonlinear_arith)
            requires
                0 <= ratio <= 0x10000000000000000 && 0 <= m <= 0xffffffffffffffff,
        ;
        assert(ratio * m <= ratio * 0x10000000000000000) by (nonlinear_arith)
            requires
                0 <= ratio && 0 <= m <= 0x10000000000000000,
        ;
        assert((ratio * 0x10000000000000000) / 0x10000000000000000 == ratio)
            by (nonlinear_arith);
        lemma_div_is_ordered(
            (ratio * m) as int,
            (ratio * 0x10000000000000000) as int,
            0x10000000000000000,
        );
    }
    (ratio * (m as u128)) / P64
}

/// `floor(2^128 / ratio)`, computed without a 256-bit intermediate by
/// dividing `u128::MAX` and correcting the off-by-one.
fn invert_ratio(ratio: u128) -> (r: u128)
    requires
        2 <= ratio,
    ensures
        r == pow_2_128() / (ratio as int),
{
    let q: u128 = u128::MAX / ratio;
    let rem: u128 = u128::MAX % ratio;
    proof {
        lemma_fundamental_div_mod(u128::MAX as int, ratio as int);
        if rem == ratio - 1 {
            assert((q + 1) * ratio == q * ratio + ratio) by (nonlinear_arith);
            lemma_fundamental_div_mod_converse(pow_2_128(), ratio as int, q + 1, 0);
            lemma_div_is_ordered_by_denominator(u128::MAX as int, 2, ratio as int);
            assert(q < u128::MAX);
        } else {
            lemma_fundamental_div_mod_converse(pow_2_128(), ratio as int, q as int, rem + 1);
        }
    }
    if rem == ratio - 1 {
        q + 1
    } else {
        q
    }
}

/// A ladder step never grows the ratio: the multiplier is below the
/// Q64.64 unit.
proof fn lemma_ratio_step_upper(r: int, m: int)
    requires
        0 <= r <= 0x10000000000000000,
        0 <= m < 0x10000000000000000,
    ensures
        (r * m) / 0x10000000000000000 <= r,
        (r * m) / 0x10000000000000000 >= 0,
{
    lemma_mul_inequality(m, 0x10000000000000000, r);
    assert(m * r == r * m) by (nonlinear_arith);
    assert(0x10000000000000000 * r == r * 0x10000000000000000) by (nonlinear_arith);
    lemma_div_is_ordered(r * m, r * 0x10000000000000000, 0x10000000000000000);
    assert((r * 0x10000000000000000) / 0x10000000000000000 == r) by (nonlinear_arith);
    assert(r * m >= 0) by (nonlinear_arith)
        requires
            r >= 0 && m >= 0,
    ;
    vstd::arithmetic::div_mod::lemma_div_pos_is_pos(r * m, 0x10000000000000000);
}

/// The ladder ratio of any tick magnitude stays between the all-bits
/// worst case and the Q64.64 unit.
proof fn lemma_tick_ratio_bounds(abs_tick: u32)
    ensures
        0x48a25e3 <= tick_ratio_spec(abs_tick) <= 0x10000000000000000,
{
    assert(0xfff62bbb6d459859 <= ratio_after_1(abs_tick) <= 0x10000000000000000) by {
        if abs_tick & 0x2 != 0 {
            lemma_ladder_step_lower(ratio_after_0(abs_tick), 0xfff97272373d4000, 0xfffcb933bd6fb800);
            lemma_ratio_step_upper(ratio_after_0(abs_tick), 0xfff97272373d4000);
        }
    }
    assert(0xffe9114b9cf29d9a <= ratio_after_2(abs_tick) <= 0x10000000000000000) by {
        if abs_tick & 0x4 != 0 {
            lemma_ladder_step_lower(ratio_after_1(abs_tick), 0xfff2e50f5f657000, 0xfff62bbb6d459859);
            lemma_ratio_step_upper(ratio_after_1(abs_tick), 0xfff2e50f5f657000);
        }
    }
    assert(0xffcede6f1d8c0483 <= ratio_after_3(abs_tick) <= 0x10000000000000000) by {
        if abs_tick & 0x8 != 0 {
            lemma_ladder_step_lower(ratio_after_2(abs_tick), 0xffe5caca7e10f000, 0xffe9114b9cf29d9a);
            lemma_ratio_step_upper(ratio_after_2(abs_tick), 0xffe5caca7e10f000);
        }
    }
    assert(0xff9a80c1ada77220 <= ratio_after_4(abs_tick) <= 0x10000000000000000) by {
        if abs_tick & 0x10 != 0 {
            lemma_ladder_step_lower(ratio_after_3(abs_tick), 0xffcb9843d60f7000, 0xffcede6f1d8c0483);
            lemma_ratio_step_upper(ratio_after_3(abs_tick), 0xffcb9843d60f7000);
        }
    }
    assert(0xff31e58d5a5419c2 <= ratio_after_5(abs_tick) <= 0x10000000000000000) by {
        if abs_tick & 0x20 != 0 {
            lemma_ladder_step_lower(ratio_after_4(abs_tick), 0xff973b41fa98e800, 0xff9a80c1ada77220);
            lemma_ratio_step_upper(ratio_after_4(abs_tick), 0xff973b41fa98e800);
        }
    }
    assert(0xfe612f8183b280e0 <= ratio_after_6(abs_tick) <= 0x10000000000000000) by {
        if abs_tick & 0x40 != 0 {
            lemma_ladder_step_lower(ratio_after_5(abs_tick), 0xff2ea16466c9b000, 0xff31e58d5a5419c2);
            lemma_ratio_step_upper(ratio_after_5(abs_tick), 0xff2ea16466c9b000);
        }
    }
    assert(0xfcc1c2f3805495f4 <= ratio_after_7(abs_tick) <= 0x10000000000000000) by {
        if abs_tick & 0x80 != 0 {
            lemma_ladder_step_lower(ratio_after_6(abs_tick), 0xfe5dee046a9a3800, 0xfe612f8183b280e0);
            lemma_ratio_step_upper(ratio_after_6(abs_tick), 0xfe5dee046a9a3800);
        }
    }
    assert(0xf98ad8c8d7ef0a9a <= ratio_after_8(abs_tick) <= 0x10000000000000000) by {
        if abs_tick & 0x100 != 0 {
            lemma_ladder_step_lower(ratio_after_7(abs_tick), 0xfcbe86c7900bb000, 0xfcc1c2f3805495f4);
            lemma_ratio_step_upper(ratio_after_7(abs_tick), 0xfcbe86c7900bb000);
        }
    }
    assert(0xf33c480189b8868b <= ratio_after_9(abs_tick) <= 0x10000000000000000) by {
        if abs_tick & 0x200 != 0 {
            lemma_ladder_step_lower(ratio_after_8(abs_tick), 0xf987a7253ac65800, 0xf98ad8c8d7ef0a9a);
            lemma_ratio_step_upper(ratio_after_8(abs_tick), 0xf987a7253ac65800);
        }
    }
    assert(0xe71889a8590c5dc9 <= ratio_after_10(abs_tick) <= 0x10000000000000000) by {
        if abs_tick & 0x400 != 0 {
            lemma_ladder_step_lower(ratio_after_9(abs_tick), 0xf3392b0822bb6000, 0xf33c480189b8868b);
            lemma_ratio_step_upper(ratio_after_9(abs_tick), 0xf3392b0822bb6000);
        }
    }
    assert(0xd09a9f3e93ea6d30 <= ratio_after_11(abs_tick) <= 0x10000000000000000) by {
        if abs_tick & 0x800 != 0 {
            lemma_ladder_step_lower(ratio_after_10(abs_tick), 0xe7159475a2caf000, 0xe71889a8590c5dc9);
            lemma_ratio_step_upper(ratio_after_10(abs_tick), 0xe7159475a2caf000);
        }
    }
    assert(0xa9f973345bb6e56f <= ratio_after_12(abs_tick) <= 0x10000000000000000) by {
        if abs_tick & 0x1000 != 0 {
            lemma_ladder_step_lower(ratio_after_11(abs_tick), 0xd097f3bdfd2f2000, 0xd09a9f3e93ea6d30);
            lemma_ratio_step_upper(ratio_after_11(abs_tick), 0xd097f3bdfd2f2000);
        }
    }
    assert(0x70d9db648610cc7e <= ratio_after_13(abs_tick) <= 0x10000000000000000) by {
        if abs_tick & 0x2000 != 0 {
            lemma_ladder_step_lower(ratio_after_12(abs_tick), 0xa9f746462d9f8000, 0xa9f973345bb6e56f);
            lemma_ratio_step_upper(ratio_after_12(abs_tick), 0xa9f746462d9f8000);
        }
    }
    assert(0x31beb65d91cc07af <= ratio_after_14(abs_tick) <= 0x10000000000000000) by {
        if abs_tick & 0x4000 != 0 {
            lemma_ladder_step_lower(ratio_after_13(abs_tick), 0x70d869a156f31c00, 0x70d9db648610cc7e);
            lemma_ratio_step_upper(ratio_after_13(abs_tick), 0x70d869a156f31c00);
        }
    }
    assert(0x9aa7036fd2e7648 <= ratio_after_15(abs_tick) <= 0x10000000000000000) by {
        if abs_tick & 0x8000 != 0 {
            lemma_ladder_step_lower(ratio_after_14(abs_tick), 0x31be135f97ed3200, 0x31beb65d91cc07af);
            lemma_ratio_step_upper(ratio_after_14(abs_tick), 0x31be135f97ed3200);
        }
    }
    assert(0x5d6c2af97b81a7 <= ratio_after_16(abs_tick) <= 0x10000000000000000) by {
        if abs_tick & 0x10000 != 0 {
            lemma_ladder_step_lower(ratio_after_15(abs_tick), 0x9aa508b5b85a500, 0x9aa7036fd2e7648);
            lemma_ratio_step_upper(ratio_after_15(abs_tick), 0x9aa508b5b85a500);
        }
    }
    assert(0x221755388b03 <= ratio_after_17(abs_tick) <= 0x10000000000000000) by {
        if abs_tick & 0x20000 != 0 {
            lemma_ladder_step_lower(ratio_after_16(abs_tick), 0x5d6af8dedc582c, 0x5d6c2af97b81a7);
            lemma_ratio_step_upper(ratio_after_16(abs_tick), 0x5d6af8dedc582c);
        }
    }
    assert(0x48a25e3 <= ratio_after_18(abs_tick) <= 0x10000000000000000) by {
        if abs_tick & 0x40000 != 0 {
            lemma_ladder_step_lower(ratio_after_17(abs_tick), 0x2216e584f5fa, 0x221755388b03);
            lemma_ratio_step_upper(ratio_after_17(abs_tick), 0x2216e584f5fa);
        }
    }
}

/// A fragment of tick-order monotonicity that the ladder's bounds give
/// directly: a price at or below tick zero never exceeds a price above
/// it.
pub proof fn lemma_price_ordered_across_zero(t1: i32, t2: i32)
    requires
        MIN_TICK <= t1 <= 0 < t2 <= MAX_TICK,
    ensures
        sqrt_price_at_tick_spec(t1) <= sqrt_price_at_tick_spec(t2),
{
    reveal(sqrt_price_at_tick_spec);
    lemma_tick_ratio_bounds(abs_tick_spec(t1));
    lemma_tick_ratio_bounds(abs_tick_spec(t2));
    let r2: int = tick_ratio_spec(abs_tick_spec(t2));
    lemma_div_is_ordered_by_denominator(pow_2_128(), r2, 0x10000000000000000);
    assert(pow_2_128() / 0x10000000000000000 == 0x10000000000000000);
}

/// The ladder's pinned boundary outputs: the sqrt prices at the two
/// extreme ticks are exactly the module's published bounds.
#[verifier::rlimit(100)]
pub proof fn lemma_boundary_prices()
    ensures
        sqrt_price_at_tick_spec(MIN_TICK) == MIN_SQRT_PRICE_X64,
        sqrt_price_at_tick_spec(MAX_TICK) == MAX_SQRT_PRICE_X64,
        sqrt_price_at_tick_spec(0) == 0x10000000000000000,
{
    reveal(sqrt_price_at_tick_spec);
    assert(0u32 & 0x1 == 0 && 0u32 & 0x2 == 0 && 0u32 & 0x4 == 0 && 0u32 & 0x8 == 0 && 0u32 & 0x10 == 0 && 0u32 & 0x20 == 0 && 0u32 & 0x40 == 0 && 0u32 & 0x80 == 0 && 0u32 & 0x100 == 0 && 0u32 & 0x200 == 0 && 0u32 & 0x400 == 0 && 0u32 & 0x800 == 0 && 0u32 & 0x1000 == 0 && 0u32 & 0x2000 == 0 && 0u32 & 0x4000 == 0 && 0u32 & 0x8000 == 0 && 0u32 & 0x10000 == 0 && 0u32 & 0x20000 == 0 && 0u32 & 0x40000 == 0) by (bit_vector);
    assert(tick_ratio_spec(0) == 0x10000000000000000);
    assert(443636u32 & 0x1 == 0 && 443636u32 & 0x2 == 0 && 443636u32 & 0x4 == 0x4 && 443636u32 & 0x8 == 0 && 443636u32 & 0x10 == 0x10 && 443636u32 & 0x20 == 0x20 && 443636u32 & 0x40 == 0x40 && 443636u32 & 0x80 == 0x80 && 443636u32 & 0x100 == 0 && 443636u32 & 0x200 == 0 && 443636u32 & 0x400 == 0x400 && 443636u32 & 0x800 == 0 && 443636u32 & 0x1000 == 0 && 443636u32 & 0x2000 == 0 && 443636u32 & 0x4000 == 0x4000 && 443636u32 & 0x8000 == 0x8000 && 443636u32 & 0x10000 == 0 && 443636u32 & 0x20000 == 0x20000 && 443636u32 & 0x40000 == 0x40000) by (bit_vector);
    assert(ratio_after_0(443636) == 0x10000000000000000);
    assert(ratio_after_1(443636) == 0x10000000000000000);
    assert(ratio_after_2(443636) == 0xfff2e50f5f657000);
    assert(ratio_after_3(443636) == 0xfff2e50f5f657000);
    assert(ratio_after_4(443636) == 0xffbe8001fdce3e5a);
    assert(ratio_after_5(443636) == 0xff55d6124e34e4a4);
    assert(ratio_after_6(443636) == 0xfe8502a1d2df3cd1);
    assert(ratio_after_7(443636) == 0xfce55b929085fcca);
    assert(ratio_after_8(443636) == 0xfce55b929085fcca);
    assert(ratio_after_9(443636) == 0xfce55b929085fcca);
    assert(ratio_after_10(443636) == 0xf0462f8012ad682d);
    assert(ratio_after_11(443636) == 0xf0462f8012ad682d);
    assert(ratio_after_12(443636) == 0xf0462f8012ad682d);
    assert(ratio_after_13(443636) == 0xf0462f8012ad682d);
    assert(ratio_after_14(443636) == 0x69e9d3245376c7f4);
    assert(ratio_after_15(443636) == 0x149464f8903bc8cd);
    assert(ratio_after_16(443636) == 0x149464f8903bc8cd);
    assert(ratio_after_17(443636) == 0x7828221c78869);
    assert(ratio_after_18(443636) == 0x100013b50);
    assert(abs_tick_spec(MIN_TICK) == 443636);
    assert(abs_tick_spec(MAX_TICK) == 443636);
}

/// The ladder product for `abs_tick`, together with the bounds the
/// inversion step needs.
#[verifier::rlimit(100)]
#[verifier::spinoff_prover]
fn compute_tick_ratio(abs_tick: u32) -> (ratio: u128)
    ensures
        ratio == tick_ratio_spec(abs_tick),
        0x48a25e3 <= ratio <= 0x10000000000000000,
{
    let mut ratio: u128 = if abs_tick & 0x1 != 0 {
        0xfffcb933bd6fb800
    } else {
        P64
    };
    proof {
        assert(ratio == ratio_after_0(abs_tick));
        assert(0xfffcb933bd6fb800 <= ratio <= 0x10000000000000000);
    }
    if abs_tick & 0x2 != 0 {
        proof {
            lemma_ladder_step_lower(ratio as int, 0xfff97272373d4000, 0xfffcb933bd6fb800);
        }
        ratio = mul_shift(ratio, 0xfff97272373d4000);
    }
    proof {
        assert(ratio == ratio_after_1(abs_tick));
        assert(0xfff62bbb6d459859 <= ratio <= 0x10000000000000000);
    }
    if abs_tick & 0x4 != 0 {
        proof {
            lemma_ladder_step_lower(ratio as int, 0xfff2e50f5f657000, 0xfff62bbb6d459859);
        }
        ratio = mul_shift(ratio, 0xfff2e50f5f657000);
    }
    proof {
        assert(ratio == ratio_after_2(abs_tick));
        assert(0xffe9114b9cf29d9a <= ratio <= 0x10000000000000000);
    }
    if abs_tick & 0x8 != 0 {
        proof {
            lemma_ladder_step_lower(ratio as int, 0xffe5caca7e10f000, 0xffe9114b9cf29d9a);
        }
        ratio = mul_shift(ratio, 0xffe5caca7e10f000);
    }
    proof {
        assert(ratio == ratio_after_3(abs_tick));
        assert(0xffcede6f1d8c0483 <= ratio <= 0x10000000000000000);
    }
    if abs_tick & 0x10 != 0 {
        proof {
            lemma_ladder_step_lower(ratio as int, 0xffcb9843d60f7000, 0xffcede6f1d8c0483);
        }
        ratio = mul_shift(ratio, 0xffcb9843d60f7000);
    }
    proof {
        assert(ratio == ratio_after_4(abs_tick));
        assert(0xff9a80c1ada77220 <= ratio <= 0x10000000000000000);
    }
    if abs_tick & 0x20 != 0 {
        proof {
            lemma_ladder_step_lower(ratio as int, 0xff973b41fa98e800, 0xff9a80c1ada77220);
        }
        ratio = mul_shift(ratio, 0xff973b41fa98e800);
    }
    proof {
        assert(ratio == ratio_after_5(abs_tick));
        assert(0xff31e58d5a5419c2 <= ratio <= 0x10000000000000000);
    }
    if abs_tick & 0x40 != 0 {
        proof {
            lemma_ladder_step_lower(ratio as int, 0xff2ea16466c9b000, 0xff31e58d5a5419c2);
        }
        ratio = mul_shift(ratio, 0xff2ea16466c9b000);
    }
    proof {
        assert(ratio == ratio_after_6(abs_tick));
        assert(0xfe612f8183b280e0 <= ratio <= 0x10000000000000000);
    }
    if abs_tick & 0x80 != 0 {
        proof {
            lemma_ladder_step_lower(ratio as int, 0xfe5dee046a9a3800, 0xfe612f8183b280e0);
        }
        ratio = mul_shift(ratio, 0xfe5dee046a9a3800);
    }
    proof {
        assert(ratio == ratio_after_7(abs_tick));
        assert(0xfcc1c2f3805495f4 <= ratio <= 0x10000000000000000);
    }
    if abs_tick & 0x100 != 0 {
        proof {
            lemma_ladder_step_lower(ratio as int, 0xfcbe86c7900bb000, 0xfcc1c2f3805495f4);
        }
        ratio = mul_shift(ratio, 0xfcbe86c7900bb000);
    }
    proof {
        assert(ratio == ratio_after_8(abs_tick));
        assert(0xf98ad8c8d7ef0a9a <= ratio <= 0x10000000000000000);
    }
    if abs_tick & 0x200 != 0 {
        proof {
            lemma_ladder_step_lower(ratio as int, 0xf987a7253ac65800, 0xf98ad8c8d7ef0a9a);
        }
        ratio = mul_shift(ratio, 0xf987a7253ac65800);
    }
    proof {
        assert(ratio == ratio_after_9(abs_tick));
        assert(0xf33c480189b8868b <= ratio <= 0x10000000000000000);
    }
    if abs_tick & 0x400 != 0 {
        proof {
            lemma_ladder_step_lower(ratio as int, 0xf3392b0822bb6000, 0xf33c480189b8868b);
        }
        ratio = mul_shift(ratio, 0xf3392b0822bb6000);
    }
    proof {
        assert(ratio == ratio_after_10(abs_tick));
        assert(0xe71889a8590c5dc9 <= ratio <= 0x10000000000000000);
    }
    if abs_tick & 0x800 != 0 {
        proof {
            lemma_ladder_step_lower(ratio as int, 0xe7159475a2caf000, 0xe71889a8590c5dc9);
        }
        ratio = mul_shift(ratio, 0xe7159475a2caf000);
    }
    proof {
        assert(ratio == ratio_after_11(abs_tick));
        assert(0xd09a9f3e93ea6d30 <= ratio <= 0x10000000000000000);
    }
    if abs_tick & 0x1000 != 0 {
        proof {
            lemma_ladder_step_lower(ratio as int, 0xd097f3bdfd2f2000, 0xd09a9f3e93ea6d30);
        }
        ratio = mul_shift(ratio, 0xd097f3bdfd2f2000);
    }
    proof {
        assert(ratio == ratio_after_12(abs_tick));
        assert(0xa9f973345bb6e56f <= ratio <= 0x10000000000000000);
    }
    if abs_tick & 0x2000 != 0 {
        proof {
            lemma_ladder_step_lower(ratio as int, 0xa9f746462d9f8000, 0xa9f973345bb6e56f);
        }
        ratio = mul_shift(ratio, 0xa9f746462d9f8000);
    }
    proof {
        assert(ratio == ratio_after_13(abs_tick));
        assert(0x70d9db648610cc7e <= ratio <= 0x10000000000000000);
    }
    if abs_tick & 0x4000 != 0 {
        proof {
            lemma_ladder_step_lower(ratio as int, 0x70d869a156f31c00, 0x70d9db648610cc7e);
        }
        ratio = mul_shift(ratio, 0x70d869a156f31c00);
    }
    proof {
        assert(ratio == ratio_after_14(abs_tick));
        assert(0x31beb65d91cc07af <= ratio <= 0x10000000000000000);
    }
    if abs_tick & 0x8000 != 0 {
        proof {
            lemma_ladder_step_lower(ratio as int, 0x31be135f97ed3200, 0x31beb65d91cc07af);
        }
        ratio = mul_shift(ratio, 0x31be135f97ed3200);
    }
    proof {
        assert(ratio == ratio_after_15(abs_tick));
        assert(0x9aa7036fd2e7648 <= ratio <= 0x10000000000000000);
    }
    if abs_tick & 0x10000 != 0 {
        proof {
            lemma_ladder_step_lower(ratio as int, 0x9aa508b5b85a500, 0x9aa7036fd2e7648);
        }
        ratio = mul_shift(ratio, 0x9aa508b5b85a500);
    }
    proof {
        assert(ratio == ratio_after_16(abs_tick));
        assert(0x5d6c2af97b81a7 <= ratio <= 0x10000000000000000);
    }
    if abs_tick & 0x20000 != 0 {
        proof {
            lemma_ladder_step_lower(ratio as int, 0x5d6af8dedc582c, 0x5d6c2af97b81a7);
        }
        ratio = mul_shift(ratio, 0x5d6af8dedc582c);
    }
    proof {
        assert(ratio == ratio_after_17(abs_tick));
        assert(0x221755388b03 <= ratio <= 0x10000000000000000);
    }
    if abs_tick & 0x40000 != 0 {
        proof {
            lemma_ladder_step_lower(ratio as int, 0x2216e584f5fa, 0x221755388b03);
        }
        ratio = mul_shift(ratio, 0x2216e584f5fa);
    }
    proof {
        assert(ratio == ratio_after_18(abs_tick));
        assert(0x48a25e3 <= ratio <= 0x10000000000000000);
    }

    ratio
}

/// The Q64.64 sqrt price at `tick`.
///
/// Fails with `TickOutOfBounds` exactly when `tick` lies outside
/// `[MIN_TICK, MAX_TICK]`; in range it returns precisely the ladder
/// value `sqrt_price_at_tick_spec(tick)`.
pub fn get_sqrt_price_at_tick(tick: i32) -> (res: Result<u128, ClmmError>)
    ensures
        !(MIN_TICK <= tick <= MAX_TICK) <==> res == Err::<u128, ClmmError>(
            ClmmError::TickOutOfBounds,
        ),
        MIN_TICK <= tick <= MAX_TICK ==> (res matches Ok(p) && p == sqrt_price_at_tick_spec(
            tick,
        )),
{
    if tick < MIN_TICK || tick > MAX_TICK {
        return Err(ClmmError::TickOutOfBounds);
    }

    let abs_tick: u32 = if tick < 0 {
        (-tick) as u32
    } else {
        tick as u32
    };
    proof {
        assert(abs_tick == abs_tick_spec(tick));
    }

    let ratio: u128 = compute_tick_ratio(abs_tick);

    if tick > 0 {
        let inverted: u128 = invert_ratio(ratio);
        proof {
            reveal(sqrt_price_at_tick_spec);
        }
        Ok(inverted)
    } else {
        proof {
            reveal(sqrt_price_at_tick_spec);
        }
        Ok(ratio)
    }
}

/// The largest tick whose ladder price does not exceed `sqrt_price_x64`,
/// found by binary search over `get_sqrt_price_at_tick`.
///
/// Fails with `InvalidSqrtPrice` exactly when the input lies outside
/// `[MIN_SQRT_PRICE_X64, MAX_SQRT_PRICE_X64]`. In range, the returned
/// tick `t` satisfies `price(t) <= sqrt_price_x64` and, unless `t` is
/// `MAX_TICK`, `price(t + 1) > sqrt_price_x64`.
pub fn get_tick_at_sqrt_price(sqrt_price_x64: u128) -> (res: Result<i32, ClmmError>)
    ensures
        !(MIN_SQRT_PRICE_X64 <= sqrt_price_x64 <= MAX_SQRT_PRICE_X64) <==> res == Err::<
            i32,
            ClmmError,
        >(ClmmError::InvalidSqrtPrice),
        MIN_SQRT_PRICE_X64 <= sqrt_price_x64 <= MAX_SQRT_PRICE_X64 ==> (res matches Ok(t)
            && MIN_TICK <= t <= MAX_TICK && sqrt_price_at_tick_spec(t) <= sqrt_price_x64 && (t
            < MAX_TICK ==> sqrt_price_at_tick_spec((t + 1) as i32) > sqrt_price_x64)),
{
    if sqrt_price_x64 < MIN_SQRT_PRICE_X64 || sqrt_price_x64 > MAX_SQRT_PRICE_X64 {
        return Err(ClmmError::InvalidSqrtPrice);
    }
    proof {
        lemma_boundary_prices();
    }

    let mut low: i32 = MIN_TICK;
    let mut high: i32 = MAX_TICK;

    while low < high
        invariant
            MIN_TICK <= low <= high <= MAX_TICK,
            sqrt_price_at_tick_spec(low) <= sqrt_price_x64,
            high < MAX_TICK ==> sqrt_price_at_tick_spec((high + 1) as i32) > sqrt_price_x64,
        decreases high - low,
    {
        let span: u32 = (high - low) as u32;
        let mid: i32 = low + ((span + 1) / 2) as i32;
        let sqrt_price_at_mid: u128 = match get_sqrt_price_at_tick(mid) {
            Ok(p) => p,
            Err(e) => {
                // Unreachable: the midpoint always lies in bounds.
                return Err(e);
            },
        };

        if sqrt_price_at_mid <= sqrt_price_x64 {
            low = mid;
        } else {
            high = mid - 1;
        }
    }

    Ok(low)
}

/// Whether `tick` lies in `[MIN_TICK, MAX_TICK]`.
pub fn check_tick_in_bounds(tick: i32) -> (r: bool)
    ensures
        r == (MIN_TICK <= tick <= MAX_TICK),
{
    tick >= MIN_TICK && tick <= MAX_TICK
}

/// With a negative divisor, the Euclidean remainder is the same as
/// with its magnitude.
proof fn lemma_mod_negative_divisor(t: int, s: int)
    requires
        s < 0,
    ensures
        t % s == t % (-s),
{
    lemma_fundamental_div_mod(t, s);
    assert(t == (-(t / s)) * (-s) + t % s) by (nonlinear_arith)
        requires
            t == (t / s) * s + t % s,
    ;
    lemma_fundamental_div_mod_converse(t, -s, -(t / s), t % s);
}

/// Whether `tick` is an exact multiple of `tick_spacing`: the signs
/// play no part, so negative ticks align exactly when their magnitude
/// does.
pub fn check_tick_aligned(tick: i32, tick_spacing: i32) -> (r: bool)
    requires
        tick_spacing != 0,
    ensures
        r == ((tick as int) % (tick_spacing as int) == 0),
{
    let abs_t: u64 = if tick < 0 {
        (-(tick as i64)) as u64
    } else {
        tick as u64
    };
    let abs_s: u64 = if tick_spacing < 0 {
        (-(tick_spacing as i64)) as u64
    } else {
        tick_spacing as u64
    };
    let aligned: bool = abs_t % abs_s == 0;
    proof {
        let t: int = tick as int;
        let s: int = tick_spacing as int;
        let sp: int = if s < 0 {
            -s
        } else {
            s
        };
        if s < 0 {
            lemma_mod_negative_divisor(t, s);
        }
        if t >= 0 {
            assert(abs_t == t);
        } else {
            assert(abs_t == -t);
            lemma_fundamental_div_mod(-t, sp);
            if (-t) % sp == 0 {
                lemma_mod_multiples_basic(-((-t) / sp), sp);
                assert(t == (-((-t) / sp)) * sp) by (nonlinear_arith)
                    requires
                        -t == sp * ((-t) / sp) + (-t) % sp && (-t) % sp == 0,
                ;
            }
            lemma_fundamental_div_mod(t, sp);
            if t % sp == 0 {
                lemma_mod_multiples_basic(-(t / sp), sp);
                assert(-t == (-(t / sp)) * sp) by (nonlinear_arith)
                    requires
                        t == sp * (t / sp) + t % sp && t % sp == 0,
                ;
            }
        }
    }
    aligned
}

/// What a swap step paying in token 0 does to the sqrt price: the
/// exact ceiling of `L·2^64·P / (L·2^64 + amount·P)` whenever every
/// intermediate fits the 128-bit working width, the input price when
/// no amount is paid, and a typed error otherwise.
pub open spec fn next_sqrt_price_from_amount_0_spec(
    sqrt_price_x64: u128,
    liquidity: u128,
    amount: u64,
) -> Result<u128, ClmmError> {
    let numerator = (liquidity as int) * 0x10000000000000000;
    let product = (amount as int) * (sqrt_price_x64 as int);
    if amount == 0 {
        Ok(sqrt_price_x64)
    } else if liquidity >= 0x10000000000000000 {
        Err(ClmmError::MathOverflow)
    } else if product > u128::MAX {
        Err(ClmmError::MathOverflow)
    } else if numerator + product > u128::MAX {
        Err(ClmmError::MathOverflow)
    } else if numerator + product == 0 {
        Err(ClmmError::DivisionByZero)
    } else {
        Ok(ceil_div_spec(numerator * sqrt_price_x64, numerator + product) as u128)
    }
}

/// What a swap step paying in token 1 does to the sqrt price: the
/// input price plus `floor(amount·2^64 / L)`, or a typed error when
/// the pool is empty or the sum leaves 128 bits.
pub open spec fn next_sqrt_price_from_amount_1_spec(
    sqrt_price_x64: u128,
    liquidity: u128,
    amount: u64,
) -> Result<u128, ClmmError> {
    let delta = ((amount as int) * 0x10000000000000000) / (liquidity as int);
    if amount == 0 {
        Ok(sqrt_price_x64)
    } else if liquidity == 0 {
        Err(ClmmError::DivisionByZero)
    } else if sqrt_price_x64 + delta > u128::MAX {
        Err(ClmmError::MathOverflow)
    } else {
        Ok((sqrt_price_x64 + delta) as u128)
    }
}

/// Division rounded toward positive infinity.
pub open spec fn ceil_div_spec(x: int, d: int) -> int {
    x / d + if x % d == 0 {
        0int
    } else {
        1int
    }
}

/// Next sqrt price after paying `amount` of token 0 into the pool;
/// the price falls, and rounding up protects the pool.
pub fn get_next_sqrt_price_from_amount_0_rounding_up(
    sqrt_price_x64: u128,
    liquidity: u128,
    amount: u64,
) -> (res: Result<u128, ClmmError>)
    ensures
        res == next_sqrt_price_from_amount_0_spec(sqrt_price_x64, liquidity, amount),
{
    if amount == 0 {
        return Ok(sqrt_price_x64);
    }
    if liquidity >= P64 {
        // The scaled liquidity would not fit the 128-bit working width.
        return Err(ClmmError::MathOverflow);
    }

    let numerator: u128 = liquidity * P64;
    let product: u128 = match (amount as u128).checked_mul(sqrt_price_x64) {
        Some(p) => p,
        None => {
            return Err(ClmmError::MathOverflow);
        },
    };
    let denominator: u128 = match numerator.checked_add(product) {
        Some(d) => d,
        None => {
            return Err(ClmmError::MathOverflow);
        },
    };

    proof {
        if denominator != 0 {
            // Rounding up cannot push the result past the input price,
            // so it stays within 128 bits.
            lemma_ceil_quotient_bounded(numerator as int, denominator as int, sqrt_price_x64 as int);
        }
    }
    mul_div_round_up(numerator, sqrt_price_x64, denominator)
}

/// Rounding `num·p / den` up to the next integer cannot exceed `p`
/// when `num` is no larger than `den`.
proof fn lemma_ceil_quotient_bounded(num: int, den: int, p: int)
    requires
        0 <= num <= den,
        0 < den,
        0 <= p,
    ensures
        ceil_div_spec(num * p, den) <= p,
{
    lemma_mul_inequality(num, den, p);
    assert((den * p) / den == p) by (nonlinear_arith)
        requires
            den > 0,
    ;
    lemma_div_is_ordered(num * p, den * p, den);
    if (num * p) % den != 0 {
        // A nonzero remainder rules out the quotient reaching `p` itself.
        lemma_fundamental_div_mod(num * p, den);
        if (num * p) / den == p {
            assert(num * p >= den * p) by (nonlinear_arith)
                requires
                    (num * p) / den == p && (num * p) % den != 0 && den > 0,
            ;
            lemma_mul_inequality(den, num, p);
            assert(false);
        }
    }
}

/// Paying token 0 into the pool never raises the sqrt price: whenever
/// the step succeeds, the new price is at most the old one.
pub proof fn lemma_next_price_from_amount_0_never_increases(
    sqrt_price_x64: u128,
    liquidity: u128,
    amount: u64,
)
    ensures
        (next_sqrt_price_from_amount_0_spec(sqrt_price_x64, liquidity, amount) matches Ok(n)
            ==> n <= sqrt_price_x64),
{
    let numerator = (liquidity as int) * 0x10000000000000000;
    let product = (amount as int) * (sqrt_price_x64 as int);
    if amount != 0 && liquidity < 0x10000000000000000 && product <= u128::MAX && numerator
        + product <= u128::MAX && numerator + product > 0 {
        lemma_ceil_quotient_bounded(numerator, numerator + product, sqrt_price_x64 as int);
    }
}

/// Paying token 1 into the pool never lowers the sqrt price: whenever
/// the step succeeds, the new price is at least the old one.
pub proof fn lemma_next_price_from_amount_1_never_decreases(
    sqrt_price_x64: u128,
    liquidity: u128,
    amount: u64,
)
    ensures
        (next_sqrt_price_from_amount_1_spec(sqrt_price_x64, liquidity, amount) matches Ok(n)
            ==> n >= sqrt_price_x64),
{
    if amount != 0 && liquidity > 0 {
        vstd::arithmetic::div_mod::lemma_div_pos_is_pos(
            (amount as int) * 0x10000000000000000,
            liquidity as int,
        );
        assert((amount as int) * 0x10000000000000000 >= 0) by (nonlinear_arith);
    }
}

/// Next sqrt price after paying `amount` of token 1 into the pool;
/// the price rises, and the added delta is floored.
pub fn get_next_sqrt_price_from_amount_1_rounding_down(
    sqrt_price_x64: u128,
    liquidity: u128,
    amount: u64,
) -> (res: Result<u128, ClmmError>)
    ensures
        res == next_sqrt_price_from_amount_1_spec(sqrt_price_x64, liquidity, amount),
{
    if amount == 0 {
        return Ok(sqrt_price_x64);
    }

    let shifted: u128 = (amount as u128) * P64;
    let delta: u128 = match shifted.checked_div(liquidity) {
        Some(d) => d,
        None => {
            return Err(ClmmError::DivisionByZero);
        },
    };
    match sqrt_price_x64.checked_add(delta) {
        Some(next) => Ok(next),
        None => Err(ClmmError::MathOverflow),
    }
}

/// One swap-step price move: token 0 in when `zero_for_one` (the price
/// falls, rounded up), token 1 in otherwise (the price rises, rounded
/// down).
pub fn get_next_sqrt_price_from_input(
    sqrt_price_x64: u128,
    liquidity: u128,
    amount: u64,
    zero_for_one: bool,
) -> (res: Result<u128, ClmmError>)
    ensures
        zero_for_one ==> res == next_sqrt_price_from_amount_0_spec(
            sqrt_price_x64,
            liquidity,
            amount,
        ),
        !zero_for_one ==> res == next_sqrt_price_from_amount_1_spec(
            sqrt_price_x64,
            liquidity,
            amount,
        ),
{
    if zero_for_one {
        get_next_sqrt_price_from_amount_0_rounding_up(sqrt_price_x64, liquidity, amount)
    } else {
        get_next_sqrt_price_from_amount_1_rounding_down(sqrt_price_x64, liquidity, amount)
    }
}

} // verus!
