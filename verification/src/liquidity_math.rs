//! Conversions between liquidity and per-token amounts over a sqrt
//! price range, and the signed delta applied when liquidity changes.
//!
//! Rounding policy: liquidity derived from amounts is floored, so
//! tokens on hand always cover the minted liquidity; amounts owed by a
//! user round up, amounts paid out round down.

use vstd::prelude::*;
use vstd::arithmetic::div_mod::{lemma_fundamental_div_mod, lemma_fundamental_div_mod_converse};
use vstd::arithmetic::mul::lemma_mul_strictly_positive;

use crate::big_num::{U256, mul_u128, mul_u256_u64, div_rem, shl_64, shr_64};
use crate::error::ClmmError;

verus! {

/// 2^64, the Q64.64 scale factor.
pub const Q64: u128 = 0x10000000000000000;

/// The smaller of a sqrt price pair.
pub open spec fn norm_lower(pa: u128, pb: u128) -> u128 {
    if pa < pb {
        pa
    } else {
        pb
    }
}

/// The larger of a sqrt price pair.
pub open spec fn norm_upper(pa: u128, pb: u128) -> u128 {
    if pa < pb {
        pb
    } else {
        pa
    }
}

/// Applies a signed delta to unsigned liquidity.
///
/// Fails with `MathOverflow` exactly when the sum leaves the `u128`
/// range on either side.
pub fn add_delta(liquidity: u128, delta: i128) -> (res: Result<u128, ClmmError>)
    ensures
        0 <= liquidity + delta <= u128::MAX ==> res == Ok::<u128, ClmmError>(
            (liquidity + delta) as u128,
        ),
        !(0 <= liquidity + delta <= u128::MAX) ==> res == Err::<u128, ClmmError>(
            ClmmError::MathOverflow,
        ),
{
    if delta < 0 {
        let abs_delta: u128 = if delta == i128::MIN {
            0x80000000000000000000000000000000u128
        } else {
            (-delta) as u128
        };
        if abs_delta > liquidity {
            Err(ClmmError::MathOverflow)
        } else {
            Ok(liquidity - abs_delta)
        }
    } else {
        match liquidity.checked_add(delta as u128) {
            Some(sum) => Ok(sum),
            None => Err(ClmmError::MathOverflow),
        }
    }
}

/// `floor(amount_0 · lower · upper / ((upper − lower) · 2^64))`, the
/// liquidity a token-0 amount supports over the range; zero when the
/// bounds coincide. Argument order does not matter.
pub open spec fn liquidity_from_amount_0_spec(pa: u128, pb: u128, amount_0: u64) -> int {
    let lo = norm_lower(pa, pb);
    let up = norm_upper(pa, pb);
    if up == lo {
        0
    } else {
        ((amount_0 as int) * lo * up) / (((up - lo) as int) * 0x10000000000000000)
    }
}

/// The intermediates of `get_liquidity_from_amount_0` stay inside the
/// 256-bit working width and the result fits a `u128`.
pub open spec fn liquidity_from_amount_0_fits(pa: u128, pb: u128, amount_0: u64) -> bool {
    let lo = norm_lower(pa, pb);
    let up = norm_upper(pa, pb);
    up == lo || ((amount_0 as int) * lo * up
        < 0x10000000000000000000000000000000000000000000000000000000000000000
        && liquidity_from_amount_0_spec(pa, pb, amount_0) <= u128::MAX)
}

/// Liquidity a token-0 amount supports over a sqrt price range.
pub fn get_liquidity_from_amount_0(
    sqrt_price_lower_x64: u128,
    sqrt_price_upper_x64: u128,
    amount_0: u64,
) -> (r: u128)
    requires
        liquidity_from_amount_0_fits(sqrt_price_lower_x64, sqrt_price_upper_x64, amount_0),
    ensures
        r == liquidity_from_amount_0_spec(sqrt_price_lower_x64, sqrt_price_upper_x64, amount_0),
{
    let sqrt_lower: u128 = if sqrt_price_lower_x64 < sqrt_price_upper_x64 {
        sqrt_price_lower_x64
    } else {
        sqrt_price_upper_x64
    };
    let sqrt_upper: u128 = if sqrt_price_lower_x64 < sqrt_price_upper_x64 {
        sqrt_price_upper_x64
    } else {
        sqrt_price_lower_x64
    };

    let diff: u128 = sqrt_upper - sqrt_lower;
    if diff == 0 {
        return 0;
    }

    let bounds_product: U256 = mul_u128(sqrt_lower, sqrt_upper);
    proof {
        assert((sqrt_lower * sqrt_upper) * amount_0 == (amount_0 as int) * sqrt_lower
            * sqrt_upper) by (nonlinear_arith);
    }
    let numerator: U256 = match mul_u256_u64(&bounds_product, amount_0) {
        Some(n) => n,
        None => {
            // Unreachable: the caller's bound keeps the product in range.
            return 0;
        },
    };
    let denominator: U256 = mul_u128(diff, Q64);
    proof {
        assert(denominator.val() > 0);
    }
    let qr = div_rem(&numerator, &denominator);
    proof {
        lemma_fundamental_div_mod_converse(
            numerator.val(),
            denominator.val(),
            qr.0.val(),
            qr.1.val(),
        );
    }
    qr.0.to_u128()
}

/// `floor(amount_1 · 2^64 / (upper − lower))`, the liquidity a token-1
/// amount supports over the range; zero when the bounds coincide.
pub open spec fn liquidity_from_amount_1_spec(pa: u128, pb: u128, amount_1: u64) -> int {
    let lo = norm_lower(pa, pb);
    let up = norm_upper(pa, pb);
    if up == lo {
        0
    } else {
        ((amount_1 as int) * 0x10000000000000000) / ((up - lo) as int)
    }
}

/// Liquidity a token-1 amount supports over a sqrt price range.
pub fn get_liquidity_from_amount_1(
    sqrt_price_lower_x64: u128,
    sqrt_price_upper_x64: u128,
    amount_1: u64,
) -> (r: u128)
    ensures
        r == liquidity_from_amount_1_spec(sqrt_price_lower_x64, sqrt_price_upper_x64, amount_1),
{
    let sqrt_lower: u128 = if sqrt_price_lower_x64 < sqrt_price_upper_x64 {
        sqrt_price_lower_x64
    } else {
        sqrt_price_upper_x64
    };
    let sqrt_upper: u128 = if sqrt_price_lower_x64 < sqrt_price_upper_x64 {
        sqrt_price_upper_x64
    } else {
        sqrt_price_lower_x64
    };

    let diff: u128 = sqrt_upper - sqrt_lower;
    if diff == 0 {
        return 0;
    }

    let numerator: u128 = (amount_1 as u128) * Q64;
    numerator / diff
}

/// What `get_delta_amount_0_unsigned` returns: the token-0 amount
/// `liquidity · (upper − lower) · 2^64 / (upper · lower)`, rounded per
/// `round_up`, or a typed error when an intermediate leaves its width.
pub open spec fn delta_amount_0_spec(pa: u128, pb: u128, liquidity: u128, round_up: bool) -> Result<
    u64,
    ClmmError,
> {
    let lo = norm_lower(pa, pb);
    let up = norm_upper(pa, pb);
    let num = (liquidity as int) * ((up - lo) as int) * 0x10000000000000000;
    let den = (lo as int) * (up as int);
    if lo == 0 {
        Err(ClmmError::DivisionByZero)
    } else if num >= 0x10000000000000000000000000000000000000000000000000000000000000000 {
        Err(ClmmError::MathOverflow)
    } else {
        let q = if round_up {
            crate::tick_math::ceil_div_spec(num, den)
        } else {
            num / den
        };
        if q > u64::MAX {
            Err(ClmmError::MathOverflow)
        } else {
            Ok(q as u64)
        }
    }
}

/// Token-0 amount that `liquidity` is worth over a sqrt price range.
pub fn get_delta_amount_0_unsigned(
    sqrt_price_lower_x64: u128,
    sqrt_price_upper_x64: u128,
    liquidity: u128,
    round_up: bool,
) -> (res: Result<u64, ClmmError>)
    ensures
        res == delta_amount_0_spec(sqrt_price_lower_x64, sqrt_price_upper_x64, liquidity, round_up),
{
    let sqrt_lower: u128 = if sqrt_price_lower_x64 < sqrt_price_upper_x64 {
        sqrt_price_lower_x64
    } else {
        sqrt_price_upper_x64
    };
    let sqrt_upper: u128 = if sqrt_price_lower_x64 < sqrt_price_upper_x64 {
        sqrt_price_upper_x64
    } else {
        sqrt_price_lower_x64
    };

    if sqrt_lower == 0 {
        return Err(ClmmError::DivisionByZero);
    }

    let diff: u128 = sqrt_upper - sqrt_lower;

    let scaled: U256 = mul_u128(liquidity, diff);
    let numerator: U256 = match shl_64(&scaled) {
        Some(n) => n,
        None => {
            return Err(ClmmError::MathOverflow);
        },
    };
    proof {
        assert((liquidity * diff) * 0x10000000000000000 == (liquidity as int) * (diff as int)
            * 0x10000000000000000) by (nonlinear_arith);
        assert(numerator.val() == (liquidity as int) * (diff as int) * 0x10000000000000000);
        lemma_mul_strictly_positive(sqrt_lower as int, sqrt_upper as int);
    }
    let denominator: U256 = mul_u128(sqrt_lower, sqrt_upper);
    let qr = div_rem(&numerator, &denominator);
    let q = qr.0;
    let rem = qr.1;
    proof {
        lemma_fundamental_div_mod_converse(numerator.val(), denominator.val(), q.val(), rem.val());
    }
    if !q.fits_u64() {
        return Err(ClmmError::MathOverflow);
    }
    let floor_amount: u64 = q.to_u64();
    let has_rem: bool = !(rem.fits_u64() && rem.to_u64() == 0);
    if round_up && has_rem {
        if floor_amount == u64::MAX {
            Err(ClmmError::MathOverflow)
        } else {
            Ok(floor_amount + 1)
        }
    } else {
        Ok(floor_amount)
    }
}

/// What `get_delta_amount_1_unsigned` returns: the token-1 amount
/// `liquidity · (upper − lower) / 2^64`, rounded per `round_up`, or a
/// typed error when the amount leaves 64 bits.
pub open spec fn delta_amount_1_spec(pa: u128, pb: u128, liquidity: u128, round_up: bool) -> Result<
    u64,
    ClmmError,
> {
    let lo = norm_lower(pa, pb);
    let up = norm_upper(pa, pb);
    let num = (liquidity as int) * ((up - lo) as int);
    if lo == 0 {
        Err(ClmmError::DivisionByZero)
    } else {
        let q = if round_up {
            crate::tick_math::ceil_div_spec(num, 0x10000000000000000)
        } else {
            num / 0x10000000000000000
        };
        if q > u64::MAX {
            Err(ClmmError::MathOverflow)
        } else {
            Ok(q as u64)
        }
    }
}

/// Token-1 amount that `liquidity` is worth over a sqrt price range.
pub fn get_delta_amount_1_unsigned(
    sqrt_price_lower_x64: u128,
    sqrt_price_upper_x64: u128,
    liquidity: u128,
    round_up: bool,
) -> (res: Result<u64, ClmmError>)
    ensures
        res == delta_amount_1_spec(sqrt_price_lower_x64, sqrt_price_upper_x64, liquidity, round_up),
{
    let sqrt_lower: u128 = if sqrt_price_lower_x64 < sqrt_price_upper_x64 {
        sqrt_price_lower_x64
    } else {
        sqrt_price_upper_x64
    };
    let sqrt_upper: u128 = if sqrt_price_lower_x64 < sqrt_price_upper_x64 {
        sqrt_price_upper_x64
    } else {
        sqrt_price_lower_x64
    };

    if sqrt_lower == 0 {
        return Err(ClmmError::DivisionByZero);
    }

    let diff: u128 = sqrt_upper - sqrt_lower;

    let numerator: U256 = mul_u128(liquidity, diff);
    let qr = shr_64(&numerator);
    let q = qr.0;
    let rem: u64 = qr.1;
    if round_up && rem != 0 {
        if !q.fits_u64() {
            return Err(ClmmError::MathOverflow);
        }
        let floor_amount: u64 = q.to_u64();
        if floor_amount == u64::MAX {
            Err(ClmmError::MathOverflow)
        } else {
            Ok(floor_amount + 1)
        }
    } else {
        if !q.fits_u64() {
            return Err(ClmmError::MathOverflow);
        }
        Ok(q.to_u64())
    }
}

/// What `get_liquidity_from_amounts` returns: the single-sided
/// liquidity when the current price sits outside the range, and the
/// smaller of the two single-sided liquidities inside it.
pub open spec fn liquidity_from_amounts_spec(
    pa: u128,
    pb: u128,
    cur: u128,
    amount_0: u64,
    amount_1: u64,
) -> int {
    let lo = norm_lower(pa, pb);
    let up = norm_upper(pa, pb);
    if cur <= lo {
        liquidity_from_amount_0_spec(lo, up, amount_0)
    } else if cur >= up {
        liquidity_from_amount_1_spec(lo, up, amount_1)
    } else {
        let liquidity_0 = liquidity_from_amount_0_spec(cur, up, amount_0);
        let liquidity_1 = liquidity_from_amount_1_spec(lo, cur, amount_1);
        if liquidity_0 < liquidity_1 {
            liquidity_0
        } else {
            liquidity_1
        }
    }
}

/// The token-0 conversion reached by `get_liquidity_from_amounts`
/// stays inside its working width.
pub open spec fn liquidity_from_amounts_fits(
    pa: u128,
    pb: u128,
    cur: u128,
    amount_0: u64,
) -> bool {
    let lo = norm_lower(pa, pb);
    let up = norm_upper(pa, pb);
    if cur <= lo {
        liquidity_from_amount_0_fits(lo, up, amount_0)
    } else if cur >= up {
        true
    } else {
        liquidity_from_amount_0_fits(cur, up, amount_0)
    }
}

/// Liquidity supported by both token amounts at the current price:
/// below the range only token 0 counts, above it only token 1, and
/// inside it the caller is never asked for more of either token than
/// declared, so the smaller single-sided liquidity wins.
pub fn get_liquidity_from_amounts(
    sqrt_price_lower_x64: u128,
    sqrt_price_upper_x64: u128,
    sqrt_price_current_x64: u128,
    amount_0: u64,
    amount_1: u64,
) -> (r: u128)
    requires
        liquidity_from_amounts_fits(
            sqrt_price_lower_x64,
            sqrt_price_upper_x64,
            sqrt_price_current_x64,
            amount_0,
        ),
    ensures
        r == liquidity_from_amounts_spec(
            sqrt_price_lower_x64,
            sqrt_price_upper_x64,
            sqrt_price_current_x64,
            amount_0,
            amount_1,
        ),
{
    let sqrt_lower: u128 = if sqrt_price_lower_x64 < sqrt_price_upper_x64 {
        sqrt_price_lower_x64
    } else {
        sqrt_price_upper_x64
    };
    let sqrt_upper: u128 = if sqrt_price_lower_x64 < sqrt_price_upper_x64 {
        sqrt_price_upper_x64
    } else {
        sqrt_price_lower_x64
    };

    if sqrt_price_current_x64 <= sqrt_lower {
        get_liquidity_from_amount_0(sqrt_lower, sqrt_upper, amount_0)
    } else if sqrt_price_current_x64 >= sqrt_upper {
        get_liquidity_from_amount_1(sqrt_lower, sqrt_upper, amount_1)
    } else {
        let liquidity_0: u128 = get_liquidity_from_amount_0(
            sqrt_price_current_x64,
            sqrt_upper,
            amount_0,
        );
        let liquidity_1: u128 = get_liquidity_from_amount_1(
            sqrt_lower,
            sqrt_price_current_x64,
            amount_1,
        );

        if liquidity_0 < liquidity_1 {
            liquidity_0
        } else {
            liquidity_1
        }
    }
}

/// Deriving liquidity from a token-1 amount and converting it back
/// loses at most one token unit, whenever the range spans at most one
/// whole Q64.64 unit of sqrt price (a wider range can swallow more
/// than one unit in the floor).
pub proof fn lemma_amount_1_liquidity_round_trip(
    sqrt_price_lower_x64: u128,
    sqrt_price_upper_x64: u128,
    amount_1: u64,
)
    requires
        0 < sqrt_price_lower_x64 < sqrt_price_upper_x64,
        sqrt_price_upper_x64 - sqrt_price_lower_x64 <= Q64,
    ensures
        ({
            let liquidity = liquidity_from_amount_1_spec(
                sqrt_price_lower_x64,
                sqrt_price_upper_x64,
                amount_1,
            );
            let back = (liquidity * ((sqrt_price_upper_x64 - sqrt_price_lower_x64) as int))
                / 0x10000000000000000;
            &&& 0 <= liquidity <= u128::MAX
            &&& delta_amount_1_spec(
                sqrt_price_lower_x64,
                sqrt_price_upper_x64,
                liquidity as u128,
                false,
            ) == Ok::<u64, ClmmError>(back as u64)
            &&& back <= amount_1
            &&& amount_1 - back <= 1
        }),
{
    let diff: int = sqrt_price_upper_x64 - sqrt_price_lower_x64;
    let scaled: int = (amount_1 as int) * 0x10000000000000000;
    let liquidity: int = scaled / diff;
    lemma_fundamental_div_mod(scaled, diff);
    let rem: int = scaled % diff;
    assert(liquidity * diff == scaled - rem);
    if liquidity > 0 {
        assert(liquidity <= liquidity * diff) by (nonlinear_arith)
            requires
                liquidity > 0 && diff >= 1,
        ;
    }
    let back: int = (liquidity * diff) / 0x10000000000000000;
    if rem == 0 {
        lemma_fundamental_div_mod_converse(
            liquidity * diff,
            0x10000000000000000,
            amount_1 as int,
            0,
        );
    } else {
        lemma_fundamental_div_mod_converse(
            liquidity * diff,
            0x10000000000000000,
            amount_1 - 1,
            0x10000000000000000 - rem,
        );
    }
}

/// Below the range, the chosen liquidity is the token-0 formula over
/// the full normalized range; the token-1 amount plays no part.
pub proof fn lemma_liquidity_below_range_ignores_amount_1(
    pa: u128,
    pb: u128,
    cur: u128,
    amount_0: u64,
    amount_1: u64,
    other_amount_1: u64,
)
    requires
        cur <= norm_lower(pa, pb),
    ensures
        liquidity_from_amounts_spec(pa, pb, cur, amount_0, amount_1)
            == liquidity_from_amount_0_spec(norm_lower(pa, pb), norm_upper(pa, pb), amount_0),
        liquidity_from_amounts_spec(pa, pb, cur, amount_0, amount_1)
            == liquidity_from_amounts_spec(pa, pb, cur, amount_0, other_amount_1),
{
}

/// Above the range, the chosen liquidity is the token-1 formula over
/// the full normalized range; the token-0 amount plays no part.
pub proof fn lemma_liquidity_above_range_ignores_amount_0(
    pa: u128,
    pb: u128,
    cur: u128,
    amount_0: u64,
    other_amount_0: u64,
    amount_1: u64,
)
    requires
        cur >= norm_upper(pa, pb),
    ensures
        liquidity_from_amounts_spec(pa, pb, cur, amount_0, amount_1)
            == liquidity_from_amount_1_spec(norm_lower(pa, pb), norm_upper(pa, pb), amount_1),
        liquidity_from_amounts_spec(pa, pb, cur, amount_0, amount_1)
            == liquidity_from_amounts_spec(pa, pb, cur, other_amount_0, amount_1),
{
}

/// Inside the range, the chosen liquidity never exceeds either
/// single-sided liquidity computed on its own.
pub proof fn lemma_liquidity_inside_range_capped(
    pa: u128,
    pb: u128,
    cur: u128,
    amount_0: u64,
    amount_1: u64,
)
    requires
        norm_lower(pa, pb) < cur < norm_upper(pa, pb),
    ensures
        liquidity_from_amounts_spec(pa, pb, cur, amount_0, amount_1)
            <= liquidity_from_amount_0_spec(cur, norm_upper(pa, pb), amount_0),
        liquidity_from_amounts_spec(pa, pb, cur, amount_0, amount_1)
            <= liquidity_from_amount_1_spec(norm_lower(pa, pb), cur, amount_1),
        liquidity_from_amounts_spec(pa, pb, cur, amount_0, amount_1)
            == liquidity_from_amount_0_spec(cur, norm_upper(pa, pb), amount_0)
            || liquidity_from_amounts_spec(pa, pb, cur, amount_0, amount_1)
            == liquidity_from_amount_1_spec(norm_lower(pa, pb), cur, amount_1),
{
}

} // verus!
