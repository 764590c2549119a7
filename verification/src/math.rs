//! Checked fixed-point arithmetic. Every helper reports overflow instead of
//! wrapping or saturating, and its contract pins the exact result.

use vstd::prelude::*;

use crate::errors::PositionError;
use crate::state::PositionSide;
use crate::{BASIS_POINTS_DIVISOR, PRICE_DECIMALS};

verus! {

/// Scale of the liquidation-price multiplier: nine decimal places.
pub const LIQUIDATION_PRECISION: u128 = 1_000_000_000;

/// `a * b / d` over the integers, `None` where the product leaves `u128`
/// or the divisor is zero.
pub open spec fn spec_mul_div(a: int, b: int, d: int) -> Option<int> {
    if d > 0 && a * b <= u128::MAX {
        Some(a * b / d)
    } else {
        None
    }
}

/// Ceiling division computed as `(n + d - 1) / d`, `None` where the shifted
/// numerator leaves `u128` or the divisor is zero.
pub open spec fn spec_div_ceil(n: int, d: int) -> Option<int> {
    if d > 0 && n + d - 1 <= u128::MAX {
        Some((n + d - 1) / d)
    } else {
        None
    }
}

/// Notional exposure of `size` units at `price`: `size * price` scaled back
/// down by the price precision. Never overflows for 64-bit inputs.
pub open spec fn spec_notional(size: int, price: int) -> int {
    size * price / (PRICE_DECIMALS as int)
}

/// Margin implied by a rate in basis points: `notional * bps / 10_000`.
pub open spec fn spec_rate_margin(notional: int, rate_bps: int) -> int {
    notional * rate_bps / (BASIS_POINTS_DIVISOR as int)
}

/// The canonical initial-margin rule: the leverage-implied component rounds
/// up, and the tier's rate-implied floor is applied on top.
pub open spec fn spec_required_margin(notional: int, leverage: int, rate_bps: int) -> int
    recommends
        leverage >= 1,
{
    let from_leverage = (notional + leverage - 1) / leverage;
    let from_rate = spec_rate_margin(notional, rate_bps);
    if from_leverage >= from_rate {
        from_leverage
    } else {
        from_rate
    }
}

/// The notional of any 64-bit size and price fits comfortably in `u128`.
pub proof fn lemma_notional_bound(size: int, price: int)
    requires
        0 <= size <= u64::MAX,
        0 <= price <= u64::MAX,
    ensures
        0 <= size * price <= u128::MAX,
        0 <= spec_notional(size, price) <= (u128::MAX as int) / (PRICE_DECIMALS as int),
{
    assert(0 <= size * price <= u128::MAX) by (nonlinear_arith)
        requires 0 <= size <= u64::MAX && 0 <= price <= u64::MAX;
    vstd::arithmetic::div_mod::lemma_div_is_ordered(
        size * price,
        u128::MAX as int,
        PRICE_DECIMALS as int,
    );
    vstd::arithmetic::div_mod::lemma_div_pos_is_pos(size * price, PRICE_DECIMALS as int);
}

pub fn mul_div_u128(a: u128, b: u128, denominator: u128) -> (r: Result<u128, PositionError>)
    ensures
        r == (match spec_mul_div(a as int, b as int, denominator as int) {
            Some(v) => Ok::<u128, PositionError>(v as u128),
            None => Err::<u128, PositionError>(PositionError::MathOverflow),
        }),
{
    match a.checked_mul(b) {
        Some(product) => match product.checked_div(denominator) {
            Some(quotient) => Ok(quotient),
            None => Err(PositionError::MathOverflow),
        },
        None => Err(PositionError::MathOverflow),
    }
}

pub fn div_ceil(numerator: u128, denominator: u128) -> (r: Result<u128, PositionError>)
    ensures
        r == (match spec_div_ceil(numerator as int, denominator as int) {
            Some(v) => Ok::<u128, PositionError>(v as u128),
            None => Err::<u128, PositionError>(PositionError::MathOverflow),
        }),
{
    if denominator == 0 {
        return Err(PositionError::MathOverflow);
    }
    match numerator.checked_add(denominator - 1) {
        Some(shifted) => match shifted.checked_div(denominator) {
            Some(quotient) => Ok(quotient),
            None => Err(PositionError::MathOverflow),
        },
        None => Err(PositionError::MathOverflow),
    }
}

pub fn checked_add_i64(left: i64, right: i64) -> (r: Result<i64, PositionError>)
    ensures
        r == (if i64::MIN <= left + right <= i64::MAX {
            Ok::<i64, PositionError>((left + right) as i64)
        } else {
            Err::<i64, PositionError>(PositionError::MathOverflow)
        }),
{
    match left.checked_add(right) {
        Some(v) => Ok(v),
        None => Err(PositionError::MathOverflow),
    }
}

pub fn checked_sub_i64(left: i64, right: i64) -> (r: Result<i64, PositionError>)
    ensures
        r == (if i64::MIN <= left - right <= i64::MAX {
            Ok::<i64, PositionError>((left - right) as i64)
        } else {
            Err::<i64, PositionError>(PositionError::MathOverflow)
        }),
{
    match left.checked_sub(right) {
        Some(v) => Ok(v),
        None => Err(PositionError::MathOverflow),
    }
}

pub fn checked_add_u64(left: u64, right: u64) -> (r: Result<u64, PositionError>)
    ensures
        r == (if left + right <= u64::MAX {
            Ok::<u64, PositionError>((left + right) as u64)
        } else {
            Err::<u64, PositionError>(PositionError::MathOverflow)
        }),
{
    match left.checked_add(right) {
        Some(v) => Ok(v),
        None => Err(PositionError::MathOverflow),
    }
}

pub fn checked_sub_u64(left: u64, right: u64) -> (r: Result<u64, PositionError>)
    ensures
        r == (if right <= left {
            Ok::<u64, PositionError>((left - right) as u64)
        } else {
            Err::<u64, PositionError>(PositionError::MathOverflow)
        }),
{
    match left.checked_sub(right) {
        Some(v) => Ok(v),
        None => Err(PositionError::MathOverflow),
    }
}

pub fn checked_mul_u64(left: u64, right: u64) -> (r: Result<u64, PositionError>)
    ensures
        r == (if left * right <= u64::MAX {
            Ok::<u64, PositionError>((left * right) as u64)
        } else {
            Err::<u64, PositionError>(PositionError::MathOverflow)
        }),
{
    match left.checked_mul(right) {
        Some(v) => Ok(v),
        None => Err(PositionError::MathOverflow),
    }
}

pub fn checked_div_u64(left: u64, right: u64) -> (r: Result<u64, PositionError>)
    ensures
        r == (if right > 0 {
            Ok::<u64, PositionError>((left as int / right as int) as u64)
        } else {
            Err::<u64, PositionError>(PositionError::MathOverflow)
        }),
{
    if right == 0 {
        return Err(PositionError::MathOverflow);
    }
    match left.checked_div(right) {
        Some(v) => Ok(v),
        None => Err(PositionError::MathOverflow),
    }
}

/// Leverage derived from margin: `notional / margin` capped at 1000, and
/// zero for a flat or unmargined position.
pub open spec fn spec_synced_leverage(margin: int, size: int, notional: int) -> int {
    if margin == 0 || size == 0 {
        0
    } else if notional / margin < 1000 {
        notional / margin
    } else {
        1000
    }
}

/// The liquidation-price multiplier, scaled by `LIQUIDATION_PRECISION`:
/// `1 - 1/leverage + maintenance_rate` for a long position and
/// `1 + 1/leverage - maintenance_rate` for a short one.
pub open spec fn spec_liq_multiplier(side: PositionSide, leverage: int, maintenance_bps: int) -> int
    recommends
        leverage >= 1,
{
    let precision = LIQUIDATION_PRECISION as int;
    let maintenance = maintenance_bps * precision / (BASIS_POINTS_DIVISOR as int);
    let from_leverage = precision / leverage;
    match side {
        PositionSide::Long => precision - from_leverage + maintenance,
        PositionSide::Short => precision + from_leverage - maintenance,
    }
}

/// The liquidation price: entry price times the side's multiplier. Zero for
/// a flat position (no leverage or no entry price); `None` where a checked
/// step would overflow (a short multiplier driven negative by an outsized
/// maintenance rate, or a product or price beyond the representable range).
pub open spec fn spec_liq_price(
    side: PositionSide,
    entry_price: int,
    leverage: int,
    maintenance_bps: int,
) -> Option<int> {
    let precision = LIQUIDATION_PRECISION as int;
    if leverage == 0 || entry_price == 0 {
        Some(0)
    } else {
        let maintenance = maintenance_bps * precision / (BASIS_POINTS_DIVISOR as int);
        let from_leverage = precision / leverage;
        if side is Short && maintenance > precision + from_leverage {
            None
        } else {
            let multiplier = spec_liq_multiplier(side, leverage, maintenance_bps);
            if entry_price * multiplier > u128::MAX {
                None
            } else if entry_price * multiplier / precision > u64::MAX {
                None
            } else {
                Some(entry_price * multiplier / precision)
            }
        }
    }
}

/// Mark price at which the position's equity reaches the maintenance margin;
/// zero when there is no liquidation risk (flat position).
pub fn compute_liquidation_price(
    side: PositionSide,
    entry_price: u64,
    leverage: u16,
    maintenance_margin_bps: u64,
) -> (r: Result<u64, PositionError>)
    ensures
        r == (match spec_liq_price(side, entry_price as int, leverage as int, maintenance_margin_bps as int) {
            Some(v) => Ok::<u64, PositionError>(v as u64),
            None => Err::<u64, PositionError>(PositionError::MathOverflow),
        }),
{
    if leverage == 0 || entry_price == 0 {
        return Ok(0);
    }

    proof {
        assert(maintenance_margin_bps * LIQUIDATION_PRECISION <= u128::MAX) by (nonlinear_arith)
            requires maintenance_margin_bps <= u64::MAX && LIQUIDATION_PRECISION == 1_000_000_000;
    }
    let maintenance_component =
        (maintenance_margin_bps as u128 * LIQUIDATION_PRECISION) / (BASIS_POINTS_DIVISOR as u128);
    let leverage_component = LIQUIDATION_PRECISION / (leverage as u128);

    let multiplier: u128 = match side {
        PositionSide::Long => {
            proof {
                assert(LIQUIDATION_PRECISION / (leverage as u128) <= LIQUIDATION_PRECISION);
            }
            LIQUIDATION_PRECISION - leverage_component + maintenance_component
        }
        PositionSide::Short => {
            if maintenance_component > LIQUIDATION_PRECISION + leverage_component {
                return Err(PositionError::MathOverflow);
            }
            LIQUIDATION_PRECISION + leverage_component - maintenance_component
        }
    };

    match (entry_price as u128).checked_mul(multiplier) {
        Some(product) => {
            let price = product / LIQUIDATION_PRECISION;
            if price > u64::MAX as u128 {
                Err(PositionError::MathOverflow)
            } else {
                Ok(price as u64)
            }
        }
        None => Err(PositionError::MathOverflow),
    }
}

/// Notional of `size` units at `price`, zero when either is zero. The
/// product of two 64-bit values always fits in `u128`, so this never fails.
pub fn compute_notional(size: u64, price: u64) -> (r: Result<u128, PositionError>)
    ensures
        r == Ok::<u128, PositionError>(spec_notional(size as int, price as int) as u128),
{
    if size == 0 || price == 0 {
        assert(size * price == 0) by (nonlinear_arith)
            requires size == 0 || price == 0;
        return Ok(0);
    }
    proof {
        assert(size * price <= u128::MAX) by (nonlinear_arith)
            requires size <= u64::MAX && price <= u64::MAX;
    }
    mul_div_u128(size as u128, price as u128, PRICE_DECIMALS)
}

} // verus!
