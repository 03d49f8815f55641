use clmm_core::tick_math::{
    check_tick_aligned, check_tick_in_bounds, get_sqrt_price_at_tick, get_tick_at_sqrt_price,
    MAX_SQRT_PRICE_X64, MAX_TICK, MIN_SQRT_PRICE_X64, MIN_TICK,
};
use clmm_core::error::ClmmError;

#[test]
fn test_get_sqrt_price_at_tick_min() {
    let sqrt_price = get_sqrt_price_at_tick(MIN_TICK).unwrap();
    assert_eq!(sqrt_price, MIN_SQRT_PRICE_X64);
}

#[test]
fn test_get_sqrt_price_at_tick_max() {
    let sqrt_price = get_sqrt_price_at_tick(MAX_TICK).unwrap();
    assert_eq!(sqrt_price, MAX_SQRT_PRICE_X64);
}

#[test]
fn test_get_sqrt_price_at_tick_zero() {
    // At tick 0, price = 1.0001^0 = 1, sqrt_price = 1
    // In Q64.64: 2^64 = 18446744073709551616
    let sqrt_price = get_sqrt_price_at_tick(0).unwrap();
    let expected = 1u128 << 64; // 2^64
                                // Allow small rounding error
    let diff = if sqrt_price > expected {
        sqrt_price - expected
    } else {
        expected - sqrt_price
    };
    assert!(diff < 1000, "sqrt_price at tick 0 should be ~2^64");
}

#[test]
fn test_tick_out_of_bounds() {
    assert!(get_sqrt_price_at_tick(MIN_TICK - 1).is_err());
    assert!(get_sqrt_price_at_tick(MAX_TICK + 1).is_err());
}

#[test]
fn test_roundtrip_tick_zero() {
    let tick = 0;
    let sqrt_price = get_sqrt_price_at_tick(tick).unwrap();
    let recovered_tick = get_tick_at_sqrt_price(sqrt_price).unwrap();
    assert_eq!(tick, recovered_tick);
}

#[test]
fn test_roundtrip_positive_tick() {
    let tick = 100;
    let sqrt_price = get_sqrt_price_at_tick(tick).unwrap();
    let recovered_tick = get_tick_at_sqrt_price(sqrt_price).unwrap();
    assert_eq!(tick, recovered_tick);
}

#[test]
fn test_roundtrip_negative_tick() {
    let tick = -100;
    let sqrt_price = get_sqrt_price_at_tick(tick).unwrap();
    let recovered_tick = get_tick_at_sqrt_price(sqrt_price).unwrap();
    assert_eq!(tick, recovered_tick);
}

#[test]
fn test_sqrt_price_monotonic_increasing() {
    // sqrt_price should increase as tick increases
    let mut prev_sqrt_price = get_sqrt_price_at_tick(MIN_TICK).unwrap();
    for tick in [
        MIN_TICK + 1000,
        -10000,
        -1000,
        -100,
        0,
        100,
        1000,
        10000,
        MAX_TICK - 1000,
    ] {
        let sqrt_price = get_sqrt_price_at_tick(tick).unwrap();
        assert!(
            sqrt_price > prev_sqrt_price,
            "sqrt_price should increase with tick"
        );
        prev_sqrt_price = sqrt_price;
    }
}

#[test]
fn test_check_tick_aligned() {
    assert!(check_tick_aligned(0, 10));
    assert!(check_tick_aligned(100, 10));
    assert!(check_tick_aligned(-100, 10));
    assert!(!check_tick_aligned(5, 10));
    assert!(!check_tick_aligned(-5, 10));
}

#[test]
fn test_roundtrip_various_ticks() {
    // Test multiple ticks across the range
    for tick in [
        MIN_TICK, -10000, -1000, -100, -1, 0, 1, 100, 1000, 10000, MAX_TICK,
    ] {
        let sqrt_price = get_sqrt_price_at_tick(tick).unwrap();
        let recovered_tick = get_tick_at_sqrt_price(sqrt_price).unwrap();
        assert_eq!(tick, recovered_tick, "Roundtrip failed for tick {}", tick);
    }
}

#[test]
fn test_sqrt_price_at_small_ticks_exact() {
    assert_eq!(get_sqrt_price_at_tick(1).unwrap(), 18447666387855957090);
    assert_eq!(get_sqrt_price_at_tick(-1).unwrap(), 18445821805675395072);
    assert_eq!(get_sqrt_price_at_tick(100).unwrap(), 18539204128674375874);
    assert_eq!(get_sqrt_price_at_tick(-100).unwrap(), 18354745142194513203);
}

#[test]
fn test_tick_at_sqrt_price_between_ticks() {
    // A price strictly between tick 100 and tick 101 floors to 100.
    let p100 = get_sqrt_price_at_tick(100).unwrap();
    assert_eq!(get_tick_at_sqrt_price(p100 + 5).unwrap(), 100);
    // One unit below tick 101 still floors to 100.
    let p101 = get_sqrt_price_at_tick(101).unwrap();
    assert_eq!(get_tick_at_sqrt_price(p101 - 1).unwrap(), 100);
    assert_eq!(get_tick_at_sqrt_price(p101).unwrap(), 101);
}

#[test]
fn test_invalid_sqrt_price() {
    assert_eq!(
        get_tick_at_sqrt_price(MIN_SQRT_PRICE_X64 - 1),
        Err(ClmmError::InvalidSqrtPrice)
    );
    assert_eq!(
        get_tick_at_sqrt_price(MAX_SQRT_PRICE_X64 + 1),
        Err(ClmmError::InvalidSqrtPrice)
    );
    assert_eq!(get_tick_at_sqrt_price(0), Err(ClmmError::InvalidSqrtPrice));
}

#[test]
fn test_out_of_bounds_error_kind() {
    assert_eq!(
        get_sqrt_price_at_tick(-443637),
        Err(ClmmError::TickOutOfBounds)
    );
    assert_eq!(
        get_sqrt_price_at_tick(443637),
        Err(ClmmError::TickOutOfBounds)
    );
    assert_eq!(
        get_sqrt_price_at_tick(i32::MIN),
        Err(ClmmError::TickOutOfBounds)
    );
    assert_eq!(
        get_sqrt_price_at_tick(i32::MAX),
        Err(ClmmError::TickOutOfBounds)
    );
}

#[test]
fn test_check_tick_aligned_spacing_one() {
    assert!(check_tick_aligned(7, 1));
    assert!(check_tick_aligned(-7, 1));
    assert!(check_tick_aligned(MIN_TICK, 1));
    assert!(!check_tick_aligned(-95, 10));
    assert!(check_tick_aligned(-600, 60));
}

#[test]
fn test_check_tick_in_bounds() {
    assert!(check_tick_in_bounds(0));
    assert!(check_tick_in_bounds(MIN_TICK));
    assert!(check_tick_in_bounds(MAX_TICK));
    assert!(!check_tick_in_bounds(MIN_TICK - 1));
    assert!(!check_tick_in_bounds(MAX_TICK + 1));
}

#[test]
fn test_check_tick_aligned_negative_spacing() {
    // The spacing's sign plays no part in divisibility.
    assert!(check_tick_aligned(100, -10));
    assert!(check_tick_aligned(-100, -10));
    assert!(!check_tick_aligned(5, -10));
    assert!(!check_tick_aligned(-95, -10));
}
