use position_manager::errors::PositionError;
use position_manager::math::{
    checked_add_i64, checked_add_u64, checked_div_u64, checked_mul_u64, checked_sub_i64,
    checked_sub_u64, compute_liquidation_price, compute_notional, div_ceil, mul_div_u128,
};
use position_manager::state::PositionSide;

#[test]
fn mul_div_exact() {
    assert_eq!(mul_div_u128(7, 3, 2), Ok(10));
    assert_eq!(mul_div_u128(u128::MAX, 1, 1), Ok(u128::MAX));
}

#[test]
fn mul_div_overflow_and_zero_divisor() {
    assert_eq!(mul_div_u128(u128::MAX, 2, 2), Err(PositionError::MathOverflow));
    assert_eq!(mul_div_u128(4, 4, 0), Err(PositionError::MathOverflow));
}

#[test]
fn div_ceil_rounds_up() {
    assert_eq!(div_ceil(10, 3), Ok(4));
    assert_eq!(div_ceil(9, 3), Ok(3));
    assert_eq!(div_ceil(0, 5), Ok(0));
    assert_eq!(div_ceil(1, 0), Err(PositionError::MathOverflow));
    assert_eq!(div_ceil(u128::MAX, 2), Err(PositionError::MathOverflow));
}

#[test]
fn checked_helpers_report_overflow() {
    assert_eq!(checked_add_u64(1, 2), Ok(3));
    assert_eq!(checked_add_u64(u64::MAX, 1), Err(PositionError::MathOverflow));
    assert_eq!(checked_sub_u64(5, 7), Err(PositionError::MathOverflow));
    assert_eq!(checked_sub_u64(7, 5), Ok(2));
    assert_eq!(checked_mul_u64(1 << 32, 1 << 32), Err(PositionError::MathOverflow));
    assert_eq!(checked_mul_u64(6, 7), Ok(42));
    assert_eq!(checked_div_u64(7, 2), Ok(3));
    assert_eq!(checked_div_u64(7, 0), Err(PositionError::MathOverflow));
    assert_eq!(checked_add_i64(i64::MAX, 1), Err(PositionError::MathOverflow));
    assert_eq!(checked_add_i64(-3, 5), Ok(2));
    assert_eq!(checked_sub_i64(i64::MIN, 1), Err(PositionError::MathOverflow));
    assert_eq!(checked_sub_i64(5, 9), Ok(-4));
}

#[test]
fn notional_scales_by_price_precision() {
    // 10 units at 100.0 (six decimals) is a notional of 1000 quote units.
    assert_eq!(compute_notional(10, 100_000_000), Ok(1000));
    assert_eq!(compute_notional(0, 100_000_000), Ok(0));
    assert_eq!(compute_notional(10, 0), Ok(0));
}

#[test]
fn liquidation_price_long_formula() {
    // entry 100.0, leverage 10, maintenance 2.5%:
    // 100 * (1 - 0.1 + 0.025) = 92.5
    assert_eq!(
        compute_liquidation_price(PositionSide::Long, 100_000_000, 10, 250),
        Ok(92_500_000)
    );
}

#[test]
fn liquidation_price_short_formula() {
    // entry 100.0, leverage 10, maintenance 2.5%:
    // 100 * (1 + 0.1 - 0.025) = 107.5
    assert_eq!(
        compute_liquidation_price(PositionSide::Short, 100_000_000, 10, 250),
        Ok(107_500_000)
    );
}

#[test]
fn liquidation_price_flat_is_zero() {
    assert_eq!(compute_liquidation_price(PositionSide::Long, 0, 10, 250), Ok(0));
    assert_eq!(compute_liquidation_price(PositionSide::Short, 100_000_000, 0, 250), Ok(0));
}

#[test]
fn liquidation_price_short_outsized_maintenance_overflows() {
    // A maintenance rate above 100% + 1/leverage drives the short multiplier
    // negative, which the checked arithmetic rejects.
    assert_eq!(
        compute_liquidation_price(PositionSide::Short, 100_000_000, 10, 20_000),
        Err(PositionError::MathOverflow)
    );
}
