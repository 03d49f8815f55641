use clmm_core::error::ClmmError;
use clmm_core::full_math::{mul_div, mul_div_round_up};
use clmm_core::tick::TickState;
use clmm_core::tick_array::TickArrayState;
use clmm_core::tick_math::{
    get_next_sqrt_price_from_amount_0_rounding_up, get_next_sqrt_price_from_amount_1_rounding_down,
    get_next_sqrt_price_from_input,
};

#[test]
fn test_mul_div_basic() {
    assert_eq!(mul_div(6, 7, 2).unwrap(), 21);
    assert_eq!(mul_div(10, 10, 3).unwrap(), 33);
    assert_eq!(mul_div_round_up(10, 10, 3).unwrap(), 34);
    assert_eq!(mul_div_round_up(10, 10, 5).unwrap(), 20);
}

#[test]
fn test_mul_div_wide_intermediate() {
    // The product spans far more than 128 bits, the quotient fits.
    let a = 1u128 << 100;
    let b = 1u128 << 100;
    assert_eq!(mul_div(a, b, 1u128 << 100).unwrap(), 1u128 << 100);
    assert_eq!(mul_div(u128::MAX, u128::MAX, u128::MAX).unwrap(), u128::MAX);
}

#[test]
fn test_mul_div_division_by_zero() {
    for (a, b) in [(0u128, 0u128), (1, 1), (u128::MAX, u128::MAX), (42, 7)] {
        assert_eq!(mul_div(a, b, 0), Err(ClmmError::DivisionByZero));
        assert_eq!(mul_div_round_up(a, b, 0), Err(ClmmError::DivisionByZero));
    }
}

#[test]
fn test_mul_div_overflow() {
    // 2^100 · 2^100 / 2^72 == 2^128: one past the representable range.
    assert_eq!(
        mul_div(1u128 << 100, 1u128 << 100, 1u128 << 72),
        Err(ClmmError::MathOverflow)
    );
    assert_eq!(mul_div(1u128 << 100, 1u128 << 100, 1u128 << 73).unwrap(), 1u128 << 127);
}

#[test]
fn test_next_sqrt_price_amount_0_decreases_price() {
    let sqrt_price = 1u128 << 64;
    let liquidity = 1u128 << 20;
    let amount = 1u64 << 10;
    let next =
        get_next_sqrt_price_from_amount_0_rounding_up(sqrt_price, liquidity, amount).unwrap();
    assert_eq!(next, 18428747250223005712);
    assert!(next < sqrt_price);
}

#[test]
fn test_next_sqrt_price_amount_1_increases_price() {
    let sqrt_price = 1u128 << 64;
    let liquidity = 1u128 << 20;
    let amount = 1u64 << 10;
    let next =
        get_next_sqrt_price_from_amount_1_rounding_down(sqrt_price, liquidity, amount).unwrap();
    assert_eq!(next, 18464758472219033600);
    assert!(next > sqrt_price);
}

#[test]
fn test_next_sqrt_price_zero_amount_is_identity() {
    let sqrt_price = 123456789u128 << 32;
    assert_eq!(
        get_next_sqrt_price_from_amount_0_rounding_up(sqrt_price, 1 << 20, 0).unwrap(),
        sqrt_price
    );
    assert_eq!(
        get_next_sqrt_price_from_amount_1_rounding_down(sqrt_price, 1 << 20, 0).unwrap(),
        sqrt_price
    );
}

#[test]
fn test_next_sqrt_price_amount_1_zero_liquidity() {
    assert_eq!(
        get_next_sqrt_price_from_amount_1_rounding_down(1 << 64, 0, 10),
        Err(ClmmError::DivisionByZero)
    );
}

#[test]
fn test_next_sqrt_price_amount_0_liquidity_overflow() {
    // Liquidity at or above 2^64 cannot be scaled into the 128-bit width.
    assert_eq!(
        get_next_sqrt_price_from_amount_0_rounding_up(1 << 64, 1u128 << 64, 10),
        Err(ClmmError::MathOverflow)
    );
}

#[test]
fn test_next_sqrt_price_from_input_dispatch() {
    let sqrt_price = 1u128 << 64;
    let liquidity = 1u128 << 20;
    let amount = 1u64 << 10;
    assert_eq!(
        get_next_sqrt_price_from_input(sqrt_price, liquidity, amount, true).unwrap(),
        get_next_sqrt_price_from_amount_0_rounding_up(sqrt_price, liquidity, amount).unwrap()
    );
    assert_eq!(
        get_next_sqrt_price_from_input(sqrt_price, liquidity, amount, false).unwrap(),
        get_next_sqrt_price_from_amount_1_rounding_down(sqrt_price, liquidity, amount).unwrap()
    );
    // Token 0 in lowers the price; token 1 in raises it.
    assert!(get_next_sqrt_price_from_input(sqrt_price, liquidity, amount, true).unwrap() < sqrt_price);
    assert!(get_next_sqrt_price_from_input(sqrt_price, liquidity, amount, false).unwrap() > sqrt_price);
}

#[test]
fn test_tick_offset_in_array() {
    // Positive tick in the first page.
    assert_eq!(TickArrayState::get_array_start_index(5, 10), 0);
    assert_eq!(TickArrayState::get_tick_offset_in_array(5, 10), 0);
    // A negative tick belongs to the page starting at -600, not 0.
    assert_eq!(TickArrayState::get_array_start_index(-5, 10), -600);
    assert_eq!(TickArrayState::get_tick_offset_in_array(-5, 10), 59);
}

#[test]
fn test_tick_offset_more_cases() {
    assert_eq!(TickArrayState::get_array_start_index(600, 10), 600);
    assert_eq!(TickArrayState::get_tick_offset_in_array(600, 10), 0);
    assert_eq!(TickArrayState::get_array_start_index(-600, 10), -600);
    assert_eq!(TickArrayState::get_tick_offset_in_array(-600, 10), 0);
    assert_eq!(TickArrayState::get_array_start_index(-601, 10), -1200);
    assert_eq!(TickArrayState::get_tick_offset_in_array(-601, 10), 59);
    assert_eq!(TickArrayState::get_array_start_index(119, 1), 60);
    assert_eq!(TickArrayState::get_tick_offset_in_array(119, 1), 59);
}

#[test]
fn test_tick_is_initialized() {
    let mut tick = TickState {
        tick: 0,
        liquidity_net: 0,
        liquidity_gross: 0,
        feee_growth_outside_0_x64: 0,
        fee_growth_outside_1_x64: 0,
        reward_growths_outside_x64: [0; 3],
        padding: [0; 13],
    };
    assert!(!tick.is_initialized());
    tick.liquidity_gross = 1;
    assert!(tick.is_initialized());
}
