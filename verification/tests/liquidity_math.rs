use clmm_core::error::ClmmError;
use clmm_core::liquidity_math::{
    add_delta, get_delta_amount_0_unsigned, get_delta_amount_1_unsigned,
    get_liquidity_from_amount_0, get_liquidity_from_amount_1, get_liquidity_from_amounts,
};
use clmm_core::tick_math::get_sqrt_price_at_tick;

#[test]
fn test_add_delta_positive() {
    assert_eq!(add_delta(100, 50).unwrap(), 150);
}

#[test]
fn test_add_delta_negative() {
    assert_eq!(add_delta(100, -30).unwrap(), 70);
}

#[test]
fn test_add_delta_underflow() {
    assert!(add_delta(50, -100).is_err());
}

#[test]
fn test_liquidity_from_amount_1() {
    // At tick 0, sqrt_price = 2^64
    // At tick 100, sqrt_price is slightly higher
    let sqrt_price_lower = get_sqrt_price_at_tick(0).unwrap();
    let sqrt_price_upper = get_sqrt_price_at_tick(100).unwrap();

    let amount_1 = 1_000_000u64; // 1M tokens
    let liquidity = get_liquidity_from_amount_1(sqrt_price_lower, sqrt_price_upper, amount_1);

    // Liquidity should be positive
    assert!(liquidity > 0);

    // Verify: computing amount back should give approximately the same
    let computed_amount =
        get_delta_amount_1_unsigned(sqrt_price_lower, sqrt_price_upper, liquidity, false)
            .unwrap();

    // Should be close to original amount (within rounding)
    let diff = if computed_amount > amount_1 {
        computed_amount - amount_1
    } else {
        amount_1 - computed_amount
    };
    assert!(diff <= 1, "Roundtrip error too large: {}", diff);
}

#[test]
fn test_liquidity_from_amount_0() {
    let sqrt_price_lower = get_sqrt_price_at_tick(-100).unwrap();
    let sqrt_price_upper = get_sqrt_price_at_tick(100).unwrap();

    let amount_0 = 1_000_000u64;
    let liquidity = get_liquidity_from_amount_0(sqrt_price_lower, sqrt_price_upper, amount_0);

    assert!(liquidity > 0);
}

#[test]
fn test_get_liquidity_from_amounts_price_below() {
    // Price below range: only token 0 matters
    let sqrt_price_current = get_sqrt_price_at_tick(-200).unwrap();
    let sqrt_price_lower = get_sqrt_price_at_tick(-100).unwrap();
    let sqrt_price_upper = get_sqrt_price_at_tick(100).unwrap();

    let liquidity = get_liquidity_from_amounts(
        sqrt_price_lower,
        sqrt_price_upper,
        sqrt_price_current,
        1_000_000, // amount_0
        0,         // amount_1 (ignored when price below)
    );

    assert!(liquidity > 0);
}

#[test]
fn test_get_liquidity_from_amounts_price_above() {
    // Price above range: only token 1 matters
    let sqrt_price_current = get_sqrt_price_at_tick(200).unwrap();
    let sqrt_price_lower = get_sqrt_price_at_tick(-100).unwrap();
    let sqrt_price_upper = get_sqrt_price_at_tick(100).unwrap();

    let liquidity = get_liquidity_from_amounts(
        sqrt_price_lower,
        sqrt_price_upper,
        sqrt_price_current,
        0,         // amount_0 (ignored when price above)
        1_000_000, // amount_1
    );

    assert!(liquidity > 0);
}

#[test]
fn test_add_delta_overflow_positive() {
    assert_eq!(add_delta(u128::MAX, 1), Err(ClmmError::MathOverflow));
    assert_eq!(add_delta(u128::MAX - 1, 1).unwrap(), u128::MAX);
    // The most negative delta still applies when liquidity covers it.
    assert_eq!(add_delta(u128::MAX, i128::MIN).unwrap(), u128::MAX - (1u128 << 127));
}

#[test]
fn test_liquidity_from_amounts_below_ignores_amount_1() {
    let sqrt_price_current = get_sqrt_price_at_tick(-200).unwrap();
    let sqrt_price_lower = get_sqrt_price_at_tick(-100).unwrap();
    let sqrt_price_upper = get_sqrt_price_at_tick(100).unwrap();

    let base = get_liquidity_from_amounts(
        sqrt_price_lower,
        sqrt_price_upper,
        sqrt_price_current,
        1_000_000,
        0,
    );
    for amount_1 in [1u64, 12345, u64::MAX] {
        let varied = get_liquidity_from_amounts(
            sqrt_price_lower,
            sqrt_price_upper,
            sqrt_price_current,
            1_000_000,
            amount_1,
        );
        assert_eq!(base, varied);
    }
    assert_eq!(base, 100004583);
}

#[test]
fn test_liquidity_from_amounts_above_ignores_amount_0() {
    let sqrt_price_current = get_sqrt_price_at_tick(200).unwrap();
    let sqrt_price_lower = get_sqrt_price_at_tick(-100).unwrap();
    let sqrt_price_upper = get_sqrt_price_at_tick(100).unwrap();

    let base = get_liquidity_from_amounts(
        sqrt_price_lower,
        sqrt_price_upper,
        sqrt_price_current,
        0,
        1_000_000,
    );
    for amount_0 in [1u64, 999, u64::MAX] {
        let varied = get_liquidity_from_amounts(
            sqrt_price_lower,
            sqrt_price_upper,
            sqrt_price_current,
            amount_0,
            1_000_000,
        );
        assert_eq!(base, varied);
    }
}

#[test]
fn test_liquidity_from_amounts_inside_range_capped() {
    let sqrt_price_lower = get_sqrt_price_at_tick(-100).unwrap();
    let sqrt_price_upper = get_sqrt_price_at_tick(100).unwrap();
    let sqrt_price_current = get_sqrt_price_at_tick(0).unwrap();

    let amount_0 = 1_000_000u64;
    let amount_1 = 2_000_000u64;
    let combined = get_liquidity_from_amounts(
        sqrt_price_lower,
        sqrt_price_upper,
        sqrt_price_current,
        amount_0,
        amount_1,
    );
    let single_0 = get_liquidity_from_amount_0(sqrt_price_current, sqrt_price_upper, amount_0);
    let single_1 = get_liquidity_from_amount_1(sqrt_price_lower, sqrt_price_current, amount_1);
    assert!(combined <= single_0);
    assert!(combined <= single_1);
    assert_eq!(combined, single_0.min(single_1));
}

#[test]
fn test_delta_amount_0_exact() {
    let sqrt_price_lower = get_sqrt_price_at_tick(0).unwrap();
    let sqrt_price_upper = get_sqrt_price_at_tick(10).unwrap();
    let liquidity = 1_000_000u128;

    let floor_amount =
        get_delta_amount_0_unsigned(sqrt_price_lower, sqrt_price_upper, liquidity, false).unwrap();
    let ceil_amount =
        get_delta_amount_0_unsigned(sqrt_price_lower, sqrt_price_upper, liquidity, true).unwrap();
    assert_eq!(floor_amount, 499);
    assert_eq!(ceil_amount, 500);
}

#[test]
fn test_delta_amount_1_exact() {
    let sqrt_price_lower = get_sqrt_price_at_tick(0).unwrap();
    let sqrt_price_upper = get_sqrt_price_at_tick(10).unwrap();
    let liquidity = 1_000_000u128;

    let floor_amount =
        get_delta_amount_1_unsigned(sqrt_price_lower, sqrt_price_upper, liquidity, false).unwrap();
    let ceil_amount =
        get_delta_amount_1_unsigned(sqrt_price_lower, sqrt_price_upper, liquidity, true).unwrap();
    assert_eq!(floor_amount, 500);
    assert_eq!(ceil_amount, 501);
}

#[test]
fn test_delta_amount_division_by_zero() {
    assert_eq!(
        get_delta_amount_0_unsigned(0, 100, 1_000, false),
        Err(ClmmError::DivisionByZero)
    );
    assert_eq!(
        get_delta_amount_1_unsigned(0, 100, 1_000, false),
        Err(ClmmError::DivisionByZero)
    );
}

#[test]
fn test_delta_amount_overflow() {
    // A huge liquidity over a wide range yields far more than 2^64 tokens.
    let sqrt_price_lower = get_sqrt_price_at_tick(-100000).unwrap();
    let sqrt_price_upper = get_sqrt_price_at_tick(100000).unwrap();
    assert_eq!(
        get_delta_amount_1_unsigned(sqrt_price_lower, sqrt_price_upper, u128::MAX / 2, false),
        Err(ClmmError::MathOverflow)
    );
}

#[test]
fn test_liquidity_from_amount_equal_bounds() {
    let p = get_sqrt_price_at_tick(50).unwrap();
    assert_eq!(get_liquidity_from_amount_0(p, p, 1_000_000), 0);
    assert_eq!(get_liquidity_from_amount_1(p, p, 1_000_000), 0);
}

#[test]
fn test_liquidity_from_amount_order_independent() {
    let a = get_sqrt_price_at_tick(-100).unwrap();
    let b = get_sqrt_price_at_tick(100).unwrap();
    assert_eq!(
        get_liquidity_from_amount_0(a, b, 777_777),
        get_liquidity_from_amount_0(b, a, 777_777)
    );
    assert_eq!(
        get_liquidity_from_amount_1(a, b, 777_777),
        get_liquidity_from_amount_1(b, a, 777_777)
    );
}

#[test]
fn test_liquidity_from_amounts_bounds_order_independent() {
    // Bounds arrive reversed: the dispatch still works over the
    // normalized (lower, upper) pair in every branch.
    let lower = 1u128 << 64;
    let upper = 1u128 << 65;
    let current = 1u128 << 64; // at the lower bound: below range
    let direct = get_liquidity_from_amounts(lower, upper, current, 1000, 0);
    let reversed = get_liquidity_from_amounts(upper, lower, current, 1000, 0);
    assert_eq!(direct, 2000);
    assert_eq!(reversed, 2000);
    // Same for a price above the range.
    let above = get_liquidity_from_amounts(upper, lower, 1u128 << 66, 0, 1000);
    assert_eq!(above, get_liquidity_from_amounts(lower, upper, 1u128 << 66, 0, 1000));
}
