//! Standalone margin arithmetic: the request-level margin summary, per-owner
//! risk totals, and the near-liquidation alert rule.

use vstd::prelude::*;

use crate::errors::MarginError;
use crate::math::{
    compute_liquidation_price, lemma_notional_bound, spec_liq_price, spec_notional,
    spec_rate_margin, spec_required_margin,
};
use crate::risk::LeverageTier;
use crate::state::{Position, PositionSide};
use crate::{BASIS_POINTS_DIVISOR, PRICE_DECIMALS};

verus! {

/// Scale of a margin ratio: nine decimal places.
pub const RATIO_PRECISION: u128 = 1_000_000_000;

/// A position whose margin ratio falls below this scaled threshold (0.15)
/// is flagged as approaching liquidation.
pub const ALERT_RATIO_THRESHOLD: i128 = 150_000_000;

/// A margin ratio, truncated toward zero: the owner's equity — collateral
/// plus unrealized PnL, which may be negative — over the notional, scaled
/// by `RATIO_PRECISION`.
pub open spec fn spec_margin_ratio(collateral: int, unrealized_pnl: int, notional: int) -> int
    recommends
        notional > 0,
{
    let equity = collateral + unrealized_pnl;
    if equity >= 0 {
        equity * (RATIO_PRECISION as int) / notional
    } else {
        -((-equity) * (RATIO_PRECISION as int) / notional)
    }
}

/// The notional of `size` units at `price`; a zero size is rejected.
pub fn notional(size: u64, price: u64) -> (r: Result<u128, MarginError>)
    ensures
        r == (if size == 0 {
            Err::<u128, MarginError>(MarginError::InvalidSize)
        } else {
            Ok::<u128, MarginError>(spec_notional(size as int, price as int) as u128)
        }),
{
    if size == 0 {
        return Err(MarginError::InvalidSize);
    }
    proof {
        lemma_notional_bound(size as int, price as int);
    }
    Ok(((size as u128) * (price as u128)) / PRICE_DECIMALS)
}

/// The canonical initial margin: the larger of the leverage-implied
/// component, rounded up, and the tier's rate-implied floor.
pub fn initial_margin(notional: u128, leverage: u16, tier: &LeverageTier) -> (r: Result<
    u128,
    MarginError,
>)
    ensures
        r == (if leverage == 0 {
            Err::<u128, MarginError>(MarginError::InvalidSize)
        } else if notional + leverage - 1 > u128::MAX
            || notional * tier.initial_margin_rate_bps > u128::MAX {
            Err::<u128, MarginError>(MarginError::Overflow)
        } else {
            Ok::<u128, MarginError>(
                spec_required_margin(
                    notional as int,
                    leverage as int,
                    tier.initial_margin_rate_bps as int,
                ) as u128,
            )
        }),
{
    if leverage == 0 {
        return Err(MarginError::InvalidSize);
    }
    let shifted = match notional.checked_add((leverage - 1) as u128) {
        Some(v) => v,
        None => return Err(MarginError::Overflow),
    };
    let from_leverage = shifted / (leverage as u128);
    let from_rate_wide = match notional.checked_mul(tier.initial_margin_rate_bps as u128) {
        Some(v) => v,
        None => return Err(MarginError::Overflow),
    };
    let from_rate = from_rate_wide / (BASIS_POINTS_DIVISOR as u128);
    if from_leverage >= from_rate {
        Ok(from_leverage)
    } else {
        Ok(from_rate)
    }
}

/// The maintenance margin: the notional times the tier's maintenance rate.
pub fn maintenance_margin(notional: u128, tier: &LeverageTier) -> (r: Result<u128, MarginError>)
    ensures
        r == (if notional * tier.maintenance_margin_rate_bps > u128::MAX {
            Err::<u128, MarginError>(MarginError::Overflow)
        } else {
            Ok::<u128, MarginError>(
                spec_rate_margin(notional as int, tier.maintenance_margin_rate_bps as int) as u128,
            )
        }),
{
    match notional.checked_mul(tier.maintenance_margin_rate_bps as u128) {
        Some(v) => Ok(v / (BASIS_POINTS_DIVISOR as u128)),
        None => Err(MarginError::Overflow),
    }
}

/// The margin ratio of a position: equity over notional, scaled by
/// `RATIO_PRECISION`; a zero notional is rejected.
pub fn margin_ratio(collateral: u64, unrealized_pnl: i64, notional: u128) -> (r: Result<
    i128,
    MarginError,
>)
    ensures
        r == (if notional == 0 {
            Err::<i128, MarginError>(MarginError::InvalidSize)
        } else {
            Ok::<i128, MarginError>(
                spec_margin_ratio(collateral as int, unrealized_pnl as int, notional as int)
                    as i128,
            )
        }),
{
    if notional == 0 {
        return Err(MarginError::InvalidSize);
    }
    let equity = collateral as i128 + unrealized_pnl as i128;
    if equity >= 0 {
        let magnitude = (equity as u128) * RATIO_PRECISION / notional;
        proof {
            assert(equity * RATIO_PRECISION <= u128::MAX) by (nonlinear_arith)
                requires
                    0 <= equity <= u64::MAX as i128 + i64::MAX as i128,
                    RATIO_PRECISION == 1_000_000_000;
            vstd::arithmetic::div_mod::lemma_div_is_ordered(
                equity * RATIO_PRECISION,
                u128::MAX as int,
                RATIO_PRECISION as int,
            );
        }
        Ok(magnitude as i128)
    } else {
        let magnitude = ((-equity) as u128) * RATIO_PRECISION / notional;
        proof {
            assert((-equity) * RATIO_PRECISION <= u128::MAX) by (nonlinear_arith)
                requires
                    0 < -equity <= i64::MAX as i128 + 1,
                    RATIO_PRECISION == 1_000_000_000;
            vstd::arithmetic::div_mod::lemma_div_is_ordered(
                (-equity) * RATIO_PRECISION,
                u128::MAX as int,
                RATIO_PRECISION as int,
            );
            vstd::arithmetic::div_mod::lemma_div_pos_is_pos(
                (-equity) * RATIO_PRECISION,
                notional as int,
            );
        }
        Ok(-(magnitude as i128))
    }
}

/// The unrealized PnL of `size` units marked at `mark_price` against
/// `entry_price`: the notional difference, signed by the side.
pub fn unrealized_pnl(side: PositionSide, size: u64, mark_price: u64, entry_price: u64) -> (r:
    i128)
    ensures
        r == (spec_notional(size as int, mark_price as int)
            - spec_notional(size as int, entry_price as int)) * side.spec_direction(),
{
    let mark_notional = match crate::math::compute_notional(size, mark_price) {
        Ok(v) => v,
        Err(_) => 0,
    };
    let entry_notional = match crate::math::compute_notional(size, entry_price) {
        Ok(v) => v,
        Err(_) => 0,
    };
    proof {
        lemma_notional_bound(size as int, mark_price as int);
        lemma_notional_bound(size as int, entry_price as int);
    }
    let diff = mark_notional as i128 - entry_notional as i128;
    if side.is_long() {
        diff
    } else {
        -diff
    }
}

/// The liquidation price under the margin calculator's error type; zero for
/// a flat position. Relies on the same rule as the engine.
pub fn liquidation_price(
    side: PositionSide,
    entry_price: u64,
    leverage: u16,
    maintenance_margin_bps: u64,
) -> (r: Result<u64, MarginError>)
    ensures
        r == (match spec_liq_price(
            side,
            entry_price as int,
            leverage as int,
            maintenance_margin_bps as int,
        ) {
            Some(v) => Ok::<u64, MarginError>(v as u64),
            None => Err::<u64, MarginError>(MarginError::Overflow),
        }),
{
    match compute_liquidation_price(side, entry_price, leverage, maintenance_margin_bps) {
        Ok(v) => Ok(v),
        Err(_) => Err(MarginError::Overflow),
    }
}

/// A request-level margin summary: initial margin, maintenance margin and
/// margin ratio for a hypothetical position.
#[derive(Clone, Copy, Debug, PartialEq, Eq, Structural)]
pub struct MarginSummary {
    pub initial_margin: u128,
    pub maintenance_margin: u128,
    pub margin_ratio: i128,
}

/// Compute the margin summary for `size` units at `mark_price` under the
/// given leverage and tier: the canonical initial margin, the maintenance
/// margin over the same notional, and the equity's margin ratio.
pub fn margin_summary(
    collateral: u64,
    unrealized: i64,
    size: u64,
    mark_price: u64,
    leverage: u16,
    tier: &LeverageTier,
) -> (r: Result<MarginSummary, MarginError>)
    ensures
        ({
            let n = spec_notional(size as int, mark_price as int);
            match r {
                Ok(s) => size > 0 && leverage > 0 && n > 0
                    && n + leverage - 1 <= u128::MAX
                    && n * tier.initial_margin_rate_bps <= u128::MAX
                    && n * tier.maintenance_margin_rate_bps <= u128::MAX
                    && s.initial_margin == spec_required_margin(
                        n,
                        leverage as int,
                        tier.initial_margin_rate_bps as int,
                    )
                    && s.maintenance_margin == spec_rate_margin(
                        n,
                        tier.maintenance_margin_rate_bps as int,
                    )
                    && s.margin_ratio == spec_margin_ratio(
                        collateral as int,
                        unrealized as int,
                        n,
                    ),
                Err(MarginError::InvalidSize) => size == 0 || leverage == 0
                    || (size > 0 && leverage > 0
                        && n + leverage - 1 <= u128::MAX
                        && n * tier.initial_margin_rate_bps <= u128::MAX
                        && n * tier.maintenance_margin_rate_bps <= u128::MAX
                        && n == 0),
                Err(MarginError::Overflow) => size > 0 && leverage > 0
                    && (n + leverage - 1 > u128::MAX
                        || n * tier.initial_margin_rate_bps > u128::MAX
                        || n * tier.maintenance_margin_rate_bps > u128::MAX),
            }
        }),
{
    let n = match notional(size, mark_price) {
        Ok(v) => v,
        Err(e) => return Err(e),
    };
    proof {
        lemma_notional_bound(size as int, mark_price as int);
    }
    let initial = match initial_margin(n, leverage, tier) {
        Ok(v) => v,
        Err(e) => return Err(e),
    };
    let maintenance = match maintenance_margin(n, tier) {
        Ok(v) => v,
        Err(e) => return Err(e),
    };
    let ratio = match margin_ratio(collateral, unrealized, n) {
        Ok(v) => v,
        Err(e) => return Err(e),
    };
    Ok(MarginSummary { initial_margin: initial, maintenance_margin: maintenance, margin_ratio: ratio })
}

/// Sum of the margins of a sequence of positions.
pub open spec fn spec_margin_sum(ps: Seq<Position>) -> int
    decreases ps.len(),
{
    if ps.len() == 0 {
        0
    } else {
        spec_margin_sum(ps.drop_last()) + ps.last().margin
    }
}

/// Sum of the realized PnL of a sequence of positions.
pub open spec fn spec_realized_sum(ps: Seq<Position>) -> int
    decreases ps.len(),
{
    if ps.len() == 0 {
        0
    } else {
        spec_realized_sum(ps.drop_last()) + ps.last().realized_pnl
    }
}

/// The risk sums grow at most one 64-bit value per position.
pub proof fn lemma_risk_sums_bounded(ps: Seq<Position>)
    ensures
        0 <= spec_margin_sum(ps) <= ps.len() * (u64::MAX as int),
        ps.len() * (i64::MIN as int) <= spec_realized_sum(ps) <= ps.len() * (i64::MAX as int),
    decreases ps.len(),
{
    if ps.len() > 0 {
        lemma_risk_sums_bounded(ps.drop_last());
        assert((ps.len() - 1) * (u64::MAX as int) + (u64::MAX as int)
            == ps.len() * (u64::MAX as int)) by (nonlinear_arith);
        assert((ps.len() - 1) * (i64::MAX as int) + (i64::MAX as int)
            == ps.len() * (i64::MAX as int)) by (nonlinear_arith);
        assert((ps.len() - 1) * (i64::MIN as int) + (i64::MIN as int)
            == ps.len() * (i64::MIN as int)) by (nonlinear_arith);
    }
}

/// Aggregate risk for one owner, as the storage layer reports it: the
/// summed margins stand in for total and locked collateral, and the summed
/// realized PnL for the owner's lifetime PnL.
#[derive(Clone, Copy, Debug, PartialEq, Eq, Structural)]
pub struct UserRiskView {
    pub owner: u64,
    pub total_collateral: u128,
    pub locked_collateral: u128,
    pub total_pnl: i128,
    pub maintenance_margin: u128,
    pub margin_ratio: i128,
}

/// Fold an owner's positions into a risk view; `None` when there are none.
/// Maintenance margin and ratio are not aggregated here and report zero.
pub fn user_risk_view(owner: u64, positions: &Vec<Position>) -> (r: Option<UserRiskView>)
    ensures
        r == (if positions@.len() == 0 {
            None::<UserRiskView>
        } else {
            Some(UserRiskView {
                owner,
                total_collateral: spec_margin_sum(positions@) as u128,
                locked_collateral: spec_margin_sum(positions@) as u128,
                total_pnl: spec_realized_sum(positions@) as i128,
                maintenance_margin: 0,
                margin_ratio: 0,
            })
        }),
{
    let n = positions.len();
    if n == 0 {
        return None;
    }
    let mut margin_total: u128 = 0;
    let mut pnl_total: i128 = 0;
    let mut i: usize = 0;
    while i < n
        invariant
            0 <= i <= n,
            n == positions@.len(),
            margin_total == spec_margin_sum(positions@.subrange(0, i as int)),
            pnl_total == spec_realized_sum(positions@.subrange(0, i as int)),
        decreases n - i,
    {
        proof {
            lemma_risk_sums_bounded(positions@.subrange(0, i as int));
            assert(i * (u64::MAX as int) + (u64::MAX as int) <= u128::MAX) by (nonlinear_arith)
                requires 0 <= i <= u64::MAX;
            assert(i * (i64::MAX as int) + (i64::MAX as int) <= i128::MAX) by (nonlinear_arith)
                requires 0 <= i <= u64::MAX;
            assert(i * (i64::MIN as int) + (i64::MIN as int) >= i128::MIN) by (nonlinear_arith)
                requires 0 <= i <= u64::MAX;
            assert(positions@.subrange(0, i + 1).drop_last() =~= positions@.subrange(0, i as int));
            assert(positions@.subrange(0, i + 1).last() == positions@[i as int]);
        }
        margin_total = margin_total + positions[i].margin as u128;
        pnl_total = pnl_total + positions[i].realized_pnl as i128;
        i = i + 1;
    }
    proof {
        assert(positions@.subrange(0, n as int) =~= positions@);
        lemma_risk_sums_bounded(positions@);
        assert(n * (u64::MAX as int) <= u128::MAX) by (nonlinear_arith)
            requires 0 <= n <= u64::MAX;
        assert(n * (i64::MAX as int) <= i128::MAX) by (nonlinear_arith)
            requires 0 <= n <= u64::MAX;
        assert(n * (i64::MIN as int) >= i128::MIN) by (nonlinear_arith)
            requires 0 <= n <= u64::MAX;
    }
    Some(UserRiskView {
        owner,
        total_collateral: margin_total,
        locked_collateral: margin_total,
        total_pnl: pnl_total,
        maintenance_margin: 0,
        margin_ratio: 0,
    })
}

/// A near-liquidation alert for one position.
#[derive(Clone, Copy, Debug, PartialEq, Eq, Structural)]
pub struct MarginAlert {
    pub position_id: u64,
    pub margin_ratio: i128,
}

/// The alerting rule: a position is flagged exactly when its margin ratio
/// falls below the scaled 0.15 threshold.
pub fn should_alert(margin_ratio: i128) -> (r: bool)
    ensures
        r == (margin_ratio < ALERT_RATIO_THRESHOLD),
{
    margin_ratio < ALERT_RATIO_THRESHOLD
}

} // verus!
