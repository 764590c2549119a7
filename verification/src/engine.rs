//! The position engine: a state machine over one position and its owner's
//! ledger. Every operation is validated before anything is written, so a
//! failing call leaves both records unchanged.

use vstd::prelude::*;
use vstd::string::StrSliceExecFns;

use crate::errors::PositionError;
use crate::math::{
    compute_liquidation_price, compute_notional, div_ceil, mul_div_u128, spec_liq_price,
    spec_notional, spec_required_margin, spec_synced_leverage,
    lemma_notional_bound,
};
use crate::risk::{get_leverage_tier, margin_from_rate, spec_resolve, LeverageTier};
use crate::state::{wf_pair, Position, PositionSide, UserAccount, MAX_SYMBOL_LEN};
use crate::PRICE_DECIMALS;

verus! {

/// Leverage above the global ceiling is still resolved against the tier
/// table, so the engine caps derived leverage rather than rejecting it.
pub const LEVERAGE_CAP: u16 = 1000;

/// One of the four in-place mutations of an open position.
#[derive(Clone, Copy, Debug, PartialEq, Eq, Structural)]
pub enum ModifyAction {
    IncreaseSize { delta_size: u64, execution_price: u64 },
    DecreaseSize { delta_size: u64, execution_price: u64 },
    AddMargin { amount: u64 },
    RemoveMargin { amount: u64 },
}

/// A mutation request: the action and the funding payment accrued with it.
#[derive(Clone, Copy, Debug, PartialEq, Eq, Structural)]
pub struct ModifyPositionParams {
    pub action: ModifyAction,
    pub funding_payment: i64,
}

/// Re-derive leverage from margin: `notional / margin` capped at the global
/// ceiling, zero for a flat or unmargined position.
fn synced_leverage(margin: u64, size: u64, notional: u128) -> (r: u16)
    ensures
        r == spec_synced_leverage(margin as int, size as int, notional as int) as u16,
        r <= LEVERAGE_CAP,
{
    if margin == 0 || size == 0 {
        0
    } else {
        let ratio = notional / (margin as u128);
        if ratio < 1000 {
            ratio as u16
        } else {
            LEVERAGE_CAP
        }
    }
}

/// What `open_position` computes: the full decision sequence, from request
/// validation through tier resolution and margin lockup to the created
/// position. The first failing check decides the error.
pub open spec fn spec_open(
    u: UserAccount,
    tiers: Seq<LeverageTier>,
    owner: u64,
    position_id: u64,
    symbol: String,
    side: PositionSide,
    size: u64,
    leverage: u16,
    entry_price: u64,
    now: i64,
) -> Result<(Position, UserAccount), PositionError> {
    if symbol@.len() > MAX_SYMBOL_LEN {
        Err(PositionError::SymbolTooLong)
    } else if leverage < 1 {
        Err(PositionError::InvalidLeverage)
    } else if size == 0 || entry_price == 0 {
        Err(PositionError::InvalidPositionSize)
    } else if u.owner != owner {
        Err(PositionError::Unauthorized)
    } else {
        let notional = spec_notional(size as int, entry_price as int);
        match spec_resolve(tiers, leverage as int, notional) {
            None => Err(PositionError::LeverageExceeded),
            Some(tier) => {
                if notional * tier.initial_margin_rate_bps > u128::MAX {
                    Err(PositionError::MathOverflow)
                } else {
                    let required = spec_required_margin(
                        notional,
                        leverage as int,
                        tier.initial_margin_rate_bps as int,
                    );
                    if required > u64::MAX {
                        Err(PositionError::MathOverflow)
                    } else if u.spec_available() < required {
                        Err(PositionError::InsufficientCollateral)
                    } else {
                        let synced = spec_synced_leverage(required, size as int, notional);
                        match spec_liq_price(
                            side,
                            entry_price as int,
                            synced,
                            tier.maintenance_margin_rate_bps as int,
                        ) {
                            None => Err(PositionError::MathOverflow),
                            Some(liq) => {
                                let u1 = UserAccount {
                                    locked_collateral: (u.locked_collateral + required) as u64,
                                    position_count: if u.position_count == u32::MAX {
                                        u32::MAX
                                    } else {
                                        (u.position_count + 1) as u32
                                    },
                                    ..u
                                };
                                let p = (Position {
                                    owner,
                                    position_id,
                                    symbol,
                                    side,
                                    size,
                                    entry_price,
                                    margin: required as u64,
                                    leverage: synced as u16,
                                    unrealized_pnl: 0,
                                    realized_pnl: 0,
                                    funding_accrued: 0,
                                    liquidation_price: liq as u64,
                                    last_update: now,
                                });
                                Ok((p, u1))
                            }
                        }
                    }
                }
            }
        }
    }
}

/// Open a new position for `owner`, locking the canonical required margin —
/// the larger of the leverage-implied margin, rounded up, and the tier's
/// rate-implied floor — into the owner's ledger.
pub fn open_position(
    user: &mut UserAccount,
    tiers: &Vec<LeverageTier>,
    owner: u64,
    position_id: u64,
    symbol: String,
    side: PositionSide,
    size: u64,
    leverage: u16,
    entry_price: u64,
    now: i64,
) -> (r: Result<Position, PositionError>)
    ensures
        ({
            let m = spec_open(
                *old(user), tiers@, owner, position_id, symbol, side, size, leverage,
                entry_price, now,
            );
            match m {
                Ok((p, u1)) => r == Ok::<Position, PositionError>(p) && *final(user) == u1,
                Err(e) => r == Err::<Position, PositionError>(e) && *final(user) == *old(user),
            }
        }),
        (old(user).wf() && r is Ok) ==> crate::state::wf_pair(r->Ok_0, *final(user)),
        old(user).wf() ==> final(user).wf(),
{
    if symbol.as_str().unicode_len() > MAX_SYMBOL_LEN {
        return Err(PositionError::SymbolTooLong);
    }
    if leverage < 1 {
        return Err(PositionError::InvalidLeverage);
    }
    if size == 0 || entry_price == 0 {
        return Err(PositionError::InvalidPositionSize);
    }
    if user.owner != owner {
        return Err(PositionError::Unauthorized);
    }

    let position_notional = match compute_notional(size, entry_price) {
        Ok(n) => n,
        Err(e) => return Err(e),
    };
    proof {
        lemma_notional_bound(size as int, entry_price as int);
    }
    let tier = match get_leverage_tier(tiers, leverage, position_notional) {
        Ok(t) => t,
        Err(e) => return Err(e),
    };
    let from_leverage = match div_ceil(position_notional, leverage as u128) {
        Ok(v) => v,
        Err(e) => return Err(e),
    };
    let from_rate = match margin_from_rate(position_notional, tier.initial_margin_rate_bps) {
        Ok(v) => v,
        Err(e) => return Err(e),
    };
    let required = if from_leverage >= from_rate {
        from_leverage
    } else {
        from_rate
    };
    if required > u64::MAX as u128 {
        return Err(PositionError::MathOverflow);
    }
    let required_u64 = required as u64;
    if user.available_collateral() < required {
        return Err(PositionError::InsufficientCollateral);
    }

    let synced = synced_leverage(required_u64, size, position_notional);
    let liquidation_price = match compute_liquidation_price(
        side,
        entry_price,
        synced,
        tier.maintenance_margin_rate_bps,
    ) {
        Ok(v) => v,
        Err(e) => return Err(e),
    };

    user.locked_collateral = user.locked_collateral + required_u64;
    user.position_count = user.position_count.saturating_add(1);

    Ok(Position {
        owner,
        position_id,
        symbol,
        side,
        size,
        entry_price,
        margin: required_u64,
        leverage: synced,
        unrealized_pnl: 0,
        realized_pnl: 0,
        funding_accrued: 0,
        liquidation_price,
        last_update: now,
    })
}

/// What increasing the size does: the weighted-average entry price is
/// recomputed over the combined notional, the tier is re-resolved, any rise
/// in required margin is locked from free collateral, and unrealized PnL
/// resets because the cost basis changed.
pub open spec fn spec_increase(
    p: Position,
    u: UserAccount,
    tiers: Seq<LeverageTier>,
    delta_size: u64,
    execution_price: u64,
) -> Result<(Position, UserAccount), PositionError> {
    if delta_size == 0 || execution_price == 0 {
        Err(PositionError::InvalidPositionSize)
    } else if p.size + delta_size > u64::MAX {
        Err(PositionError::MathOverflow)
    } else {
        let new_size = p.size + delta_size;
        let current_notional = spec_notional(p.size as int, p.entry_price as int);
        let add_notional = spec_notional(delta_size as int, execution_price as int);
        let new_notional = current_notional + add_notional;
        match spec_resolve(tiers, p.leverage as int, new_notional) {
            None => Err(PositionError::LeverageExceeded),
            Some(tier) => {
                if p.leverage == 0 {
                    Err(PositionError::MathOverflow)
                } else if new_notional * tier.initial_margin_rate_bps > u128::MAX {
                    Err(PositionError::MathOverflow)
                } else {
                    let target = spec_required_margin(
                        new_notional,
                        p.leverage as int,
                        tier.initial_margin_rate_bps as int,
                    );
                    if target > u64::MAX {
                        Err(PositionError::MathOverflow)
                    } else if target > p.margin && u.spec_available() < target - p.margin {
                        Err(PositionError::InsufficientCollateral)
                    } else {
                        let margin1 = if target > p.margin { target } else { p.margin as int };
                        let locked1 = if target > p.margin {
                            u.locked_collateral + target - p.margin
                        } else {
                            u.locked_collateral as int
                        };
                        if new_notional * (PRICE_DECIMALS as int) > u128::MAX {
                            Err(PositionError::MathOverflow)
                        } else {
                            let new_entry = new_notional * (PRICE_DECIMALS as int) / new_size;
                            if new_entry > u64::MAX {
                                Err(PositionError::MathOverflow)
                            } else {
                                let synced = spec_synced_leverage(margin1, new_size, new_notional);
                                match spec_liq_price(
                                    p.side,
                                    new_entry,
                                    synced,
                                    tier.maintenance_margin_rate_bps as int,
                                ) {
                                    None => Err(PositionError::MathOverflow),
                                    Some(liq) => Ok((
                                        (Position {
                                            size: new_size as u64,
                                            entry_price: new_entry as u64,
                                            margin: margin1 as u64,
                                            leverage: synced as u16,
                                            unrealized_pnl: 0,
                                            liquidation_price: liq as u64,
                                            ..p
                                        }),
                                        (UserAccount { locked_collateral: locked1 as u64, ..u }),
                                    )),
                                }
                            }
                        }
                    }
                }
            }
        }
    }
}

/// What decreasing the size does: PnL on the closed slice is realized
/// against the untouched cost basis, margin is released in proportion to the
/// closed fraction, funding is accrued, and — unless the position went flat —
/// the entry price is re-derived from the remaining notional, the tier is
/// re-resolved and any margin shortfall is locked from free collateral.
pub open spec fn spec_decrease(
    p: Position,
    u: UserAccount,
    tiers: Seq<LeverageTier>,
    delta_size: u64,
    execution_price: u64,
    funding_payment: i64,
) -> Result<(Position, UserAccount), PositionError> {
    if delta_size == 0 || execution_price == 0 {
        Err(PositionError::InvalidPositionSize)
    } else if delta_size > p.size {
        Err(PositionError::PositionSizeTooSmall)
    } else {
        let remaining = p.size - delta_size;
        let current_notional = spec_notional(p.size as int, p.entry_price as int);
        let closing_notional = spec_notional(delta_size as int, execution_price as int);
        let entry_notional = spec_notional(delta_size as int, p.entry_price as int);
        let pnl = (closing_notional - entry_notional) * p.side.spec_direction();
        if !(i64::MIN <= pnl <= i64::MAX) {
            Err(PositionError::MathOverflow)
        } else if !(i64::MIN <= p.realized_pnl + pnl <= i64::MAX) {
            Err(PositionError::MathOverflow)
        } else if !(i64::MIN <= u.total_pnl + pnl <= i64::MAX) {
            Err(PositionError::MathOverflow)
        } else {
            let release = p.margin * delta_size / (p.size as int);
            let margin1 = p.margin - release;
            let locked1 = u.locked_collateral - release;
            if !(i64::MIN <= p.funding_accrued + funding_payment <= i64::MAX) {
                Err(PositionError::MathOverflow)
            } else {
                let p1 = (Position {
                    size: remaining as u64,
                    margin: margin1 as u64,
                    realized_pnl: (p.realized_pnl + pnl) as i64,
                    funding_accrued: (p.funding_accrued + funding_payment) as i64,
                    ..p
                });
                let u1 = (UserAccount {
                    locked_collateral: locked1 as u64,
                    total_pnl: (u.total_pnl + pnl) as i64,
                    ..u
                });
                if remaining == 0 {
                    Ok((
                        (Position { unrealized_pnl: 0, liquidation_price: 0, leverage: 0, ..p1 }),
                        u1,
                    ))
                } else {
                    let remaining_notional = current_notional - entry_notional;
                    let new_entry = remaining_notional * (PRICE_DECIMALS as int) / remaining;
                    if new_entry > u64::MAX {
                        Err(PositionError::MathOverflow)
                    } else {
                        match spec_resolve(tiers, p.leverage as int, remaining_notional) {
                            None => Err(PositionError::LeverageExceeded),
                            Some(tier) => {
                                if p.leverage == 0 {
                                    Err(PositionError::MathOverflow)
                                } else if remaining_notional * tier.initial_margin_rate_bps
                                    > u128::MAX {
                                    Err(PositionError::MathOverflow)
                                } else {
                                    let target = spec_required_margin(
                                        remaining_notional,
                                        p.leverage as int,
                                        tier.initial_margin_rate_bps as int,
                                    );
                                    if target > u64::MAX {
                                        Err(PositionError::MathOverflow)
                                    } else if margin1 < target
                                        && u1.spec_available() < target - margin1 {
                                        Err(PositionError::InsufficientCollateral)
                                    } else {
                                        let margin2 = if margin1 < target {
                                            target
                                        } else {
                                            margin1
                                        };
                                        let locked2 = if margin1 < target {
                                            locked1 + target - margin1
                                        } else {
                                            locked1
                                        };
                                        let synced = spec_synced_leverage(
                                            margin2,
                                            remaining as int,
                                            remaining_notional,
                                        );
                                        match spec_liq_price(
                                            p.side,
                                            new_entry,
                                            synced,
                                            tier.maintenance_margin_rate_bps as int,
                                        ) {
                                            None => Err(PositionError::MathOverflow),
                                            Some(liq) => Ok((
                                                (Position {
                                                    entry_price: new_entry as u64,
                                                    margin: margin2 as u64,
                                                    leverage: synced as u16,
                                                    liquidation_price: liq as u64,
                                                    ..p1
                                                }),
                                                (UserAccount {
                                                    locked_collateral: locked2 as u64,
                                                    ..u1
                                                }),
                                            )),
                                        }
                                    }
                                }
                            }
                        }
                    }
                }
            }
        }
    }
}

/// What adding margin does: the amount is locked from free collateral,
/// the position's margin grows by it, leverage is re-derived over the
/// unchanged notional, and funding is accrued.
pub open spec fn spec_add_margin(
    p: Position,
    u: UserAccount,
    amount: u64,
    funding_payment: i64,
) -> Result<(Position, UserAccount), PositionError> {
    if amount == 0 {
        Err(PositionError::MarginTooLow)
    } else if u.spec_available() < amount {
        Err(PositionError::InsufficientCollateral)
    } else if !(i64::MIN <= p.funding_accrued + funding_payment <= i64::MAX) {
        Err(PositionError::MathOverflow)
    } else {
        let margin1 = p.margin + amount;
        let notional = spec_notional(p.size as int, p.entry_price as int);
        let synced = spec_synced_leverage(margin1, p.size as int, notional);
        Ok((
            (Position {
                margin: margin1 as u64,
                leverage: synced as u16,
                funding_accrued: (p.funding_accrued + funding_payment) as i64,
                ..p
            }),
            (UserAccount { locked_collateral: (u.locked_collateral + amount) as u64, ..u }),
        ))
    }
}

/// What removing margin does: the request fails unless the margin left
/// behind still covers the maintenance-level requirement — the larger of the
/// leverage-implied margin and the tier's maintenance-rate margin — and on
/// success the amount is unlocked, leverage re-derived and funding accrued.
pub open spec fn spec_remove_margin(
    p: Position,
    u: UserAccount,
    tiers: Seq<LeverageTier>,
    amount: u64,
    funding_payment: i64,
) -> Result<(Position, UserAccount), PositionError> {
    if amount == 0 {
        Err(PositionError::MarginTooLow)
    } else if amount > p.margin {
        Err(PositionError::MarginTooLow)
    } else {
        let notional = spec_notional(p.size as int, p.entry_price as int);
        match spec_resolve(tiers, p.leverage as int, notional) {
            None => Err(PositionError::LeverageExceeded),
            Some(tier) => {
                if p.leverage == 0 {
                    Err(PositionError::MathOverflow)
                } else if notional * tier.maintenance_margin_rate_bps > u128::MAX {
                    Err(PositionError::MathOverflow)
                } else {
                    let target = spec_required_margin(
                        notional,
                        p.leverage as int,
                        tier.maintenance_margin_rate_bps as int,
                    );
                    if target > u64::MAX {
                        Err(PositionError::MathOverflow)
                    } else if p.margin - amount < target {
                        Err(PositionError::MarginTooLow)
                    } else if !(i64::MIN <= p.funding_accrued + funding_payment <= i64::MAX) {
                        Err(PositionError::MathOverflow)
                    } else {
                        let margin1 = p.margin - amount;
                        let synced = spec_synced_leverage(margin1, p.size as int, notional);
                        Ok((
                            (Position {
                                margin: margin1 as u64,
                                leverage: synced as u16,
                                funding_accrued: (p.funding_accrued + funding_payment) as i64,
                                ..p
                            }),
                            (UserAccount {
                                locked_collateral: (u.locked_collateral - amount) as u64,
                                ..u
                            }),
                        ))
                    }
                }
            }
        }
    }
}

/// Grow an open position by `delta_size` units executed at
/// `execution_price`, locking any rise in required margin.
fn increase_position_size(
    position: &mut Position,
    user: &mut UserAccount,
    tiers: &Vec<LeverageTier>,
    delta_size: u64,
    execution_price: u64,
) -> (r: Result<(), PositionError>)
    requires
        wf_pair(*old(position), *old(user)),
        old(position).size > 0,
    ensures
        ({
            let m = spec_increase(*old(position), *old(user), tiers@, delta_size, execution_price);
            match m {
                Ok((p1, u1)) => r is Ok && *final(position) == p1 && *final(user) == u1,
                Err(e) => r == Err::<(), PositionError>(e) && *final(position) == *old(position)
                    && *final(user) == *old(user),
            }
        }),
        wf_pair(*final(position), *final(user)),
{
    if delta_size == 0 || execution_price == 0 {
        return Err(PositionError::InvalidPositionSize);
    }
    let new_size = match position.size.checked_add(delta_size) {
        Some(v) => v,
        None => return Err(PositionError::MathOverflow),
    };
    let current_notional = match compute_notional(position.size, position.entry_price) {
        Ok(v) => v,
        Err(e) => return Err(e),
    };
    let add_notional = match compute_notional(delta_size, execution_price) {
        Ok(v) => v,
        Err(e) => return Err(e),
    };
    proof {
        lemma_notional_bound(position.size as int, position.entry_price as int);
        lemma_notional_bound(delta_size as int, execution_price as int);
    }
    let new_notional = current_notional + add_notional;
    let tier = match get_leverage_tier(tiers, position.leverage, new_notional) {
        Ok(t) => t,
        Err(e) => return Err(e),
    };
    let from_leverage = match div_ceil(new_notional, position.leverage as u128) {
        Ok(v) => v,
        Err(e) => return Err(e),
    };
    let from_rate = match margin_from_rate(new_notional, tier.initial_margin_rate_bps) {
        Ok(v) => v,
        Err(e) => return Err(e),
    };
    let target = if from_leverage >= from_rate {
        from_leverage
    } else {
        from_rate
    };
    if target > u64::MAX as u128 {
        return Err(PositionError::MathOverflow);
    }
    let target_u64 = target as u64;
    let (new_margin, new_locked) = if target_u64 > position.margin {
        let delta_margin = target_u64 - position.margin;
        if user.available_collateral() < delta_margin as u128 {
            return Err(PositionError::InsufficientCollateral);
        }
        (target_u64, user.locked_collateral + delta_margin)
    } else {
        (position.margin, user.locked_collateral)
    };
    let new_entry_wide = match mul_div_u128(new_notional, PRICE_DECIMALS, new_size as u128) {
        Ok(v) => v,
        Err(e) => return Err(e),
    };
    if new_entry_wide > u64::MAX as u128 {
        return Err(PositionError::MathOverflow);
    }
    let new_entry = new_entry_wide as u64;
    let synced = synced_leverage(new_margin, new_size, new_notional);
    let liquidation_price = match compute_liquidation_price(
        position.side,
        new_entry,
        synced,
        tier.maintenance_margin_rate_bps,
    ) {
        Ok(v) => v,
        Err(e) => return Err(e),
    };

    position.size = new_size;
    position.entry_price = new_entry;
    position.margin = new_margin;
    position.leverage = synced;
    position.unrealized_pnl = 0;
    position.liquidation_price = liquidation_price;
    user.locked_collateral = new_locked;
    Ok(())
}

/// Shrink an open position by `delta_size` units executed at
/// `execution_price`, realizing PnL on the closed slice, releasing margin
/// proportionally and accruing the funding payment.
fn decrease_position_size(
    position: &mut Position,
    user: &mut UserAccount,
    tiers: &Vec<LeverageTier>,
    delta_size: u64,
    execution_price: u64,
    funding_payment: i64,
) -> (r: Result<(), PositionError>)
    requires
        wf_pair(*old(position), *old(user)),
        old(position).size > 0,
    ensures
        ({
            let m = spec_decrease(
                *old(position), *old(user), tiers@, delta_size, execution_price, funding_payment,
            );
            match m {
                Ok((p1, u1)) => r is Ok && *final(position) == p1 && *final(user) == u1,
                Err(e) => r == Err::<(), PositionError>(e) && *final(position) == *old(position)
                    && *final(user) == *old(user),
            }
        }),
        wf_pair(*final(position), *final(user)),
{
    if delta_size == 0 || execution_price == 0 {
        return Err(PositionError::InvalidPositionSize);
    }
    if delta_size > position.size {
        return Err(PositionError::PositionSizeTooSmall);
    }
    let remaining_size = position.size - delta_size;

    let current_notional = match compute_notional(position.size, position.entry_price) {
        Ok(v) => v,
        Err(e) => return Err(e),
    };
    let closing_notional = match compute_notional(delta_size, execution_price) {
        Ok(v) => v,
        Err(e) => return Err(e),
    };
    let entry_notional = match compute_notional(delta_size, position.entry_price) {
        Ok(v) => v,
        Err(e) => return Err(e),
    };
    proof {
        lemma_notional_bound(position.size as int, position.entry_price as int);
        lemma_notional_bound(delta_size as int, execution_price as int);
        lemma_notional_bound(delta_size as int, position.entry_price as int);
    }

    let pnl_diff = closing_notional as i128 - entry_notional as i128;
    let pnl_wide = if position.side.is_long() {
        pnl_diff
    } else {
        -pnl_diff
    };
    if pnl_wide > i64::MAX as i128 || pnl_wide < i64::MIN as i128 {
        return Err(PositionError::MathOverflow);
    }
    let pnl = pnl_wide as i64;
    let new_realized = match position.realized_pnl.checked_add(pnl) {
        Some(v) => v,
        None => return Err(PositionError::MathOverflow),
    };
    let new_total_pnl = match user.total_pnl.checked_add(pnl) {
        Some(v) => v,
        None => return Err(PositionError::MathOverflow),
    };

    proof {
        assert(position.margin * delta_size <= u128::MAX) by (nonlinear_arith)
            requires position.margin <= u64::MAX && delta_size <= u64::MAX;
        assert(position.margin * delta_size <= position.margin * position.size)
            by (nonlinear_arith)
            requires delta_size <= position.size && 0 <= position.margin;
        vstd::arithmetic::div_mod::lemma_div_is_ordered(
            position.margin * delta_size,
            position.margin * position.size,
            position.size as int,
        );
        vstd::arithmetic::div_mod::lemma_div_by_multiple(
            position.margin as int,
            position.size as int,
        );
        assert(position.margin * position.size == (position.margin as int) * (position.size as int));
        assert(position.margin * delta_size / (position.size as int) <= position.margin);
    }
    let release_wide = match mul_div_u128(
        position.margin as u128,
        delta_size as u128,
        position.size as u128,
    ) {
        Ok(v) => v,
        Err(e) => return Err(e),
    };
    let release = release_wide as u64;
    let new_margin = position.margin - release;
    let new_locked = user.locked_collateral - release;
    let new_funding = match position.funding_accrued.checked_add(funding_payment) {
        Some(v) => v,
        None => return Err(PositionError::MathOverflow),
    };

    if remaining_size == 0 {
        proof {
            vstd::arithmetic::div_mod::lemma_div_by_multiple(
                position.margin as int,
                position.size as int,
            );
            assert(release == position.margin);
        }
        position.size = 0;
        position.margin = new_margin;
        position.leverage = 0;
        position.unrealized_pnl = 0;
        position.realized_pnl = new_realized;
        position.funding_accrued = new_funding;
        position.liquidation_price = 0;
        user.locked_collateral = new_locked;
        user.total_pnl = new_total_pnl;
        return Ok(());
    }

    proof {
        vstd::arithmetic::mul::lemma_mul_inequality(
            delta_size as int,
            position.size as int,
            position.entry_price as int,
        );
        vstd::arithmetic::div_mod::lemma_div_is_ordered(
            delta_size * position.entry_price,
            position.size * position.entry_price,
            PRICE_DECIMALS as int,
        );
        assert(entry_notional <= current_notional);
        // The remaining notional scaled back up never leaves u128: it is at
        // most the full size-times-price product.
        vstd::arithmetic::div_mod::lemma_fundamental_div_mod(
            position.size * position.entry_price,
            PRICE_DECIMALS as int,
        );
        vstd::arithmetic::mul::lemma_mul_inequality(
            (current_notional - entry_notional) as int,
            current_notional as int,
            PRICE_DECIMALS as int,
        );
    }
    let remaining_notional = current_notional - entry_notional;
    let new_entry_wide = match mul_div_u128(
        remaining_notional,
        PRICE_DECIMALS,
        remaining_size as u128,
    ) {
        Ok(v) => v,
        Err(e) => return Err(e),
    };
    if new_entry_wide > u64::MAX as u128 {
        return Err(PositionError::MathOverflow);
    }
    let new_entry = new_entry_wide as u64;
    let tier = match get_leverage_tier(tiers, position.leverage, remaining_notional) {
        Ok(t) => t,
        Err(e) => return Err(e),
    };
    let from_leverage = match div_ceil(remaining_notional, position.leverage as u128) {
        Ok(v) => v,
        Err(e) => return Err(e),
    };
    let from_rate = match margin_from_rate(remaining_notional, tier.initial_margin_rate_bps) {
        Ok(v) => v,
        Err(e) => return Err(e),
    };
    let target = if from_leverage >= from_rate {
        from_leverage
    } else {
        from_rate
    };
    if target > u64::MAX as u128 {
        return Err(PositionError::MathOverflow);
    }
    let target_u64 = target as u64;
    let (final_margin, final_locked) = if new_margin < target_u64 {
        let shortfall = target_u64 - new_margin;
        let available = (user.total_collateral as u128).saturating_sub(new_locked as u128);
        if available < shortfall as u128 {
            return Err(PositionError::InsufficientCollateral);
        }
        (new_margin + shortfall, new_locked + shortfall)
    } else {
        (new_margin, new_locked)
    };
    let synced = synced_leverage(final_margin, remaining_size, remaining_notional);
    let liquidation_price = match compute_liquidation_price(
        position.side,
        new_entry,
        synced,
        tier.maintenance_margin_rate_bps,
    ) {
        Ok(v) => v,
        Err(e) => return Err(e),
    };

    position.size = remaining_size;
    position.entry_price = new_entry;
    position.margin = final_margin;
    position.leverage = synced;
    position.realized_pnl = new_realized;
    position.funding_accrued = new_funding;
    position.liquidation_price = liquidation_price;
    user.locked_collateral = final_locked;
    user.total_pnl = new_total_pnl;
    Ok(())
}

/// Lock `amount` of free collateral onto the position as extra margin.
fn add_margin(
    position: &mut Position,
    user: &mut UserAccount,
    amount: u64,
    funding_payment: i64,
) -> (r: Result<(), PositionError>)
    requires
        wf_pair(*old(position), *old(user)),
        old(position).size > 0,
    ensures
        ({
            let m = spec_add_margin(*old(position), *old(user), amount, funding_payment);
            match m {
                Ok((p1, u1)) => r is Ok && *final(position) == p1 && *final(user) == u1,
                Err(e) => r == Err::<(), PositionError>(e) && *final(position) == *old(position)
                    && *final(user) == *old(user),
            }
        }),
        wf_pair(*final(position), *final(user)),
{
    if amount == 0 {
        return Err(PositionError::MarginTooLow);
    }
    if user.available_collateral() < amount as u128 {
        return Err(PositionError::InsufficientCollateral);
    }
    let new_funding = match position.funding_accrued.checked_add(funding_payment) {
        Some(v) => v,
        None => return Err(PositionError::MathOverflow),
    };
    let new_margin = position.margin + amount;
    let notional = match compute_notional(position.size, position.entry_price) {
        Ok(v) => v,
        Err(e) => return Err(e),
    };
    proof {
        lemma_notional_bound(position.size as int, position.entry_price as int);
    }
    let synced = synced_leverage(new_margin, position.size, notional);
    position.margin = new_margin;
    position.leverage = synced;
    position.funding_accrued = new_funding;
    user.locked_collateral = user.locked_collateral + amount;
    Ok(())
}

/// Release `amount` of margin back to free collateral, provided the margin
/// left behind still covers the maintenance-level requirement.
fn remove_margin(
    position: &mut Position,
    user: &mut UserAccount,
    tiers: &Vec<LeverageTier>,
    amount: u64,
    funding_payment: i64,
) -> (r: Result<(), PositionError>)
    requires
        wf_pair(*old(position), *old(user)),
        old(position).size > 0,
    ensures
        ({
            let m = spec_remove_margin(*old(position), *old(user), tiers@, amount, funding_payment);
            match m {
                Ok((p1, u1)) => r is Ok && *final(position) == p1 && *final(user) == u1,
                Err(e) => r == Err::<(), PositionError>(e) && *final(position) == *old(position)
                    && *final(user) == *old(user),
            }
        }),
        wf_pair(*final(position), *final(user)),
{
    if amount == 0 {
        return Err(PositionError::MarginTooLow);
    }
    if amount > position.margin {
        return Err(PositionError::MarginTooLow);
    }
    let notional = match compute_notional(position.size, position.entry_price) {
        Ok(v) => v,
        Err(e) => return Err(e),
    };
    proof {
        lemma_notional_bound(position.size as int, position.entry_price as int);
    }
    let tier = match get_leverage_tier(tiers, position.leverage, notional) {
        Ok(t) => t,
        Err(e) => return Err(e),
    };
    let from_leverage = match div_ceil(notional, position.leverage as u128) {
        Ok(v) => v,
        Err(e) => return Err(e),
    };
    let from_rate = match margin_from_rate(notional, tier.maintenance_margin_rate_bps) {
        Ok(v) => v,
        Err(e) => return Err(e),
    };
    let target = if from_leverage >= from_rate {
        from_leverage
    } else {
        from_rate
    };
    if target > u64::MAX as u128 {
        return Err(PositionError::MathOverflow);
    }
    if ((position.margin - amount) as u128) < target {
        return Err(PositionError::MarginTooLow);
    }
    let new_funding = match position.funding_accrued.checked_add(funding_payment) {
        Some(v) => v,
        None => return Err(PositionError::MathOverflow),
    };
    let new_margin = position.margin - amount;
    let synced = synced_leverage(new_margin, position.size, notional);
    position.margin = new_margin;
    position.leverage = synced;
    position.funding_accrued = new_funding;
    user.locked_collateral = user.locked_collateral - amount;
    Ok(())
}

/// What a modify request does: the stored record must match the request's
/// position id and owner and must still be open; the action then rewrites
/// position and ledger together, and a success stamps the update time.
pub open spec fn spec_modify(
    p: Position,
    u: UserAccount,
    tiers: Seq<LeverageTier>,
    owner: u64,
    position_id: u64,
    params: ModifyPositionParams,
    now: i64,
) -> Result<(Position, UserAccount), PositionError> {
    if p.position_id != position_id {
        Err(PositionError::PositionIdMismatch)
    } else if p.owner != owner {
        Err(PositionError::Unauthorized)
    } else if p.size == 0 {
        Err(PositionError::PositionClosed)
    } else {
        let inner = match params.action {
            ModifyAction::IncreaseSize { delta_size, execution_price } => spec_increase(
                p, u, tiers, delta_size, execution_price,
            ),
            ModifyAction::DecreaseSize { delta_size, execution_price } => spec_decrease(
                p, u, tiers, delta_size, execution_price, params.funding_payment,
            ),
            ModifyAction::AddMargin { amount } => spec_add_margin(
                p, u, amount, params.funding_payment,
            ),
            ModifyAction::RemoveMargin { amount } => spec_remove_margin(
                p, u, tiers, amount, params.funding_payment,
            ),
        };
        match inner {
            Ok((p1, u1)) => Ok(((Position { last_update: now, ..p1 }), u1)),
            Err(e) => Err(e),
        }
    }
}

/// What closing does: a full decrease at the execution price, then the
/// risk state is zeroed. Fails `PositionClosed` on an already-flat position.
pub open spec fn spec_close(
    p: Position,
    u: UserAccount,
    tiers: Seq<LeverageTier>,
    owner: u64,
    position_id: u64,
    execution_price: u64,
    funding_payment: i64,
    now: i64,
) -> Result<(Position, UserAccount), PositionError> {
    if p.position_id != position_id {
        Err(PositionError::PositionIdMismatch)
    } else if p.owner != owner {
        Err(PositionError::Unauthorized)
    } else if p.size == 0 {
        Err(PositionError::PositionClosed)
    } else {
        match spec_decrease(p, u, tiers, p.size, execution_price, funding_payment) {
            Err(e) => Err(e),
            Ok((p1, u1)) => Ok((
                (Position {
                    size: 0,
                    margin: 0,
                    leverage: 0,
                    unrealized_pnl: 0,
                    liquidation_price: 0,
                    last_update: now,
                    ..p1
                }),
                u1,
            )),
        }
    }
}

/// Apply one mutation request to an open position and its owner's ledger,
/// atomically: a failing call returns the typed error and changes nothing.
pub fn modify_position(
    position: &mut Position,
    user: &mut UserAccount,
    tiers: &Vec<LeverageTier>,
    owner: u64,
    position_id: u64,
    params: ModifyPositionParams,
    now: i64,
) -> (r: Result<(), PositionError>)
    requires
        wf_pair(*old(position), *old(user)),
    ensures
        ({
            let m = spec_modify(
                *old(position), *old(user), tiers@, owner, position_id, params, now,
            );
            match m {
                Ok((p1, u1)) => r is Ok && *final(position) == p1 && *final(user) == u1,
                Err(e) => r == Err::<(), PositionError>(e) && *final(position) == *old(position)
                    && *final(user) == *old(user),
            }
        }),
        wf_pair(*final(position), *final(user)),
{
    if position.position_id != position_id {
        return Err(PositionError::PositionIdMismatch);
    }
    if position.owner != owner {
        return Err(PositionError::Unauthorized);
    }
    if position.size == 0 {
        return Err(PositionError::PositionClosed);
    }
    let applied = match params.action {
        ModifyAction::IncreaseSize { delta_size, execution_price } => {
            increase_position_size(position, user, tiers, delta_size, execution_price)
        }
        ModifyAction::DecreaseSize { delta_size, execution_price } => {
            decrease_position_size(
                position, user, tiers, delta_size, execution_price, params.funding_payment,
            )
        }
        ModifyAction::AddMargin { amount } => {
            add_margin(position, user, amount, params.funding_payment)
        }
        ModifyAction::RemoveMargin { amount } => {
            remove_margin(position, user, tiers, amount, params.funding_payment)
        }
    };
    match applied {
        Ok(()) => {
            position.last_update = now;
            Ok(())
        }
        Err(e) => Err(e),
    }
}

/// Close an open position at `execution_price`: a full decrease, after which
/// the remaining risk state is zeroed and the update time stamped.
pub fn close_position(
    position: &mut Position,
    user: &mut UserAccount,
    tiers: &Vec<LeverageTier>,
    owner: u64,
    position_id: u64,
    execution_price: u64,
    funding_payment: i64,
    now: i64,
) -> (r: Result<(), PositionError>)
    requires
        wf_pair(*old(position), *old(user)),
    ensures
        ({
            let m = spec_close(
                *old(position), *old(user), tiers@, owner, position_id, execution_price,
                funding_payment, now,
            );
            match m {
                Ok((p1, u1)) => r is Ok && *final(position) == p1 && *final(user) == u1,
                Err(e) => r == Err::<(), PositionError>(e) && *final(position) == *old(position)
                    && *final(user) == *old(user),
            }
        }),
        wf_pair(*final(position), *final(user)),
{
    if position.position_id != position_id {
        return Err(PositionError::PositionIdMismatch);
    }
    if position.owner != owner {
        return Err(PositionError::Unauthorized);
    }
    if position.size == 0 {
        return Err(PositionError::PositionClosed);
    }
    let full_size = position.size;
    match decrease_position_size(
        position, user, tiers, full_size, execution_price, funding_payment,
    ) {
        Ok(()) => {
            position.size = 0;
            position.margin = 0;
            position.leverage = 0;
            position.unrealized_pnl = 0;
            position.liquidation_price = 0;
            position.last_update = now;
            Ok(())
        }
        Err(e) => Err(e),
    }
}

/// A successful size increase preserves the position-ledger invariant.
pub proof fn lemma_increase_preserves_wf(
    p: Position,
    u: UserAccount,
    tiers: Seq<LeverageTier>,
    delta_size: u64,
    execution_price: u64,
)
    requires
        wf_pair(p, u),
        p.size > 0,
    ensures
        spec_increase(p, u, tiers, delta_size, execution_price) matches Ok((p1, u1))
            ==> wf_pair(p1, u1),
{
}

/// A successful size decrease preserves the position-ledger invariant.
pub proof fn lemma_decrease_preserves_wf(
    p: Position,
    u: UserAccount,
    tiers: Seq<LeverageTier>,
    delta_size: u64,
    execution_price: u64,
    funding_payment: i64,
)
    requires
        wf_pair(p, u),
        p.size > 0,
    ensures
        spec_decrease(p, u, tiers, delta_size, execution_price, funding_payment)
            matches Ok((p1, u1)) ==> wf_pair(p1, u1),
{
    if 0 < delta_size <= p.size && execution_price > 0 {
        assert(0 <= p.margin * delta_size) by (nonlinear_arith)
            requires 0 <= p.margin && 0 <= delta_size;
        assert(p.margin * delta_size <= p.margin * p.size) by (nonlinear_arith)
            requires delta_size <= p.size && 0 <= p.margin;
        vstd::arithmetic::div_mod::lemma_div_is_ordered(
            p.margin * delta_size,
            p.margin * p.size,
            p.size as int,
        );
        vstd::arithmetic::div_mod::lemma_div_by_multiple(p.margin as int, p.size as int);
        vstd::arithmetic::div_mod::lemma_div_pos_is_pos(p.margin * delta_size, p.size as int);
        assert(0 <= p.margin * delta_size / (p.size as int) <= p.margin);
        if delta_size == p.size {
            assert(p.margin * delta_size / (p.size as int) == p.margin);
        }
    }
}

/// Successfully adding margin preserves the position-ledger invariant.
pub proof fn lemma_add_margin_preserves_wf(
    p: Position,
    u: UserAccount,
    amount: u64,
    funding_payment: i64,
)
    requires
        wf_pair(p, u),
        p.size > 0,
    ensures
        spec_add_margin(p, u, amount, funding_payment) matches Ok((p1, u1)) ==> wf_pair(p1, u1),
{
}

/// Successfully removing margin preserves the position-ledger invariant.
pub proof fn lemma_remove_margin_preserves_wf(
    p: Position,
    u: UserAccount,
    tiers: Seq<LeverageTier>,
    amount: u64,
    funding_payment: i64,
)
    requires
        wf_pair(p, u),
        p.size > 0,
    ensures
        spec_remove_margin(p, u, tiers, amount, funding_payment) matches Ok((p1, u1))
            ==> wf_pair(p1, u1),
{
}

/// Every successful modify preserves the position-ledger invariant; a
/// failing one changes nothing at all.
pub proof fn lemma_modify_preserves_wf(
    p: Position,
    u: UserAccount,
    tiers: Seq<LeverageTier>,
    owner: u64,
    position_id: u64,
    params: ModifyPositionParams,
    now: i64,
)
    requires
        wf_pair(p, u),
    ensures
        spec_modify(p, u, tiers, owner, position_id, params, now) matches Ok((p1, u1))
            ==> wf_pair(p1, u1),
{
    if p.position_id == position_id && p.owner == owner && p.size > 0 {
        match params.action {
            ModifyAction::IncreaseSize { delta_size, execution_price } => {
                lemma_increase_preserves_wf(p, u, tiers, delta_size, execution_price);
            }
            ModifyAction::DecreaseSize { delta_size, execution_price } => {
                lemma_decrease_preserves_wf(
                    p, u, tiers, delta_size, execution_price, params.funding_payment,
                );
            }
            ModifyAction::AddMargin { amount } => {
                lemma_add_margin_preserves_wf(p, u, amount, params.funding_payment);
            }
            ModifyAction::RemoveMargin { amount } => {
                lemma_remove_margin_preserves_wf(p, u, tiers, amount, params.funding_payment);
            }
        }
    }
}

/// The state after a sequence of modify requests against one position, each
/// addressed by the stored id and owner; a failing request leaves the state
/// untouched, exactly as the engine does.
pub open spec fn spec_run(
    p: Position,
    u: UserAccount,
    tiers: Seq<LeverageTier>,
    reqs: Seq<ModifyPositionParams>,
    now: i64,
) -> (Position, UserAccount)
    decreases reqs.len(),
{
    if reqs.len() == 0 {
        (p, u)
    } else {
        let stepped = match spec_modify(p, u, tiers, p.owner, p.position_id, reqs[0], now) {
            Ok(s) => s,
            Err(_) => (p, u),
        };
        spec_run(stepped.0, stepped.1, tiers, reqs.drop_first(), now)
    }
}

/// The owner's free collateral never goes negative: after any sequence of
/// modify requests from a well-formed state, locked collateral still fits
/// inside total collateral, so the exact availability is non-negative.
pub proof fn lemma_collateral_never_negative(
    p: Position,
    u: UserAccount,
    tiers: Seq<LeverageTier>,
    reqs: Seq<ModifyPositionParams>,
    now: i64,
)
    requires
        wf_pair(p, u),
    ensures
        ({
            let (pf, uf) = spec_run(p, u, tiers, reqs, now);
            wf_pair(pf, uf) && uf.spec_available() == uf.total_collateral - uf.locked_collateral
                && uf.spec_available() >= 0
        }),
    decreases reqs.len(),
{
    if reqs.len() > 0 {
        lemma_modify_preserves_wf(p, u, tiers, p.owner, p.position_id, reqs[0], now);
        let stepped = match spec_modify(p, u, tiers, p.owner, p.position_id, reqs[0], now) {
            Ok(s) => s,
            Err(_) => (p, u),
        };
        lemma_collateral_never_negative(stepped.0, stepped.1, tiers, reqs.drop_first(), now);
    }
}

/// Round trip: closing a position at its own entry price realizes no PnL,
/// clears the margin, and returns the owner's locked collateral to exactly
/// its pre-open value.
pub proof fn lemma_open_close_round_trip(
    u: UserAccount,
    tiers: Seq<LeverageTier>,
    owner: u64,
    position_id: u64,
    symbol: String,
    side: PositionSide,
    size: u64,
    leverage: u16,
    entry_price: u64,
    now: i64,
)
    requires
        u.wf(),
        spec_open(u, tiers, owner, position_id, symbol, side, size, leverage, entry_price, now)
            is Ok,
    ensures
        ({
            let opened = spec_open(
                u, tiers, owner, position_id, symbol, side, size, leverage, entry_price, now,
            )->Ok_0;
            let closed = spec_close(
                opened.0, opened.1, tiers, owner, position_id, entry_price, 0, now,
            );
            closed matches Ok((p2, u2)) && p2.realized_pnl == 0 && p2.margin == 0
                && u2.locked_collateral == u.locked_collateral
        }),
{
    let opened = spec_open(
        u, tiers, owner, position_id, symbol, side, size, leverage, entry_price, now,
    )->Ok_0;
    let p1 = opened.0;
    let u1 = opened.1;
    assert(p1.size == size && p1.entry_price == entry_price && p1.size > 0);
    let closing_notional = spec_notional(size as int, entry_price as int);
    assert((closing_notional - closing_notional) * p1.side.spec_direction() == 0)
        by (nonlinear_arith);
    vstd::arithmetic::div_mod::lemma_div_by_multiple(p1.margin as int, p1.size as int);
    assert(p1.margin * p1.size / (p1.size as int) == p1.margin);
}

/// Decreasing by the full size is the same operation as closing: both
/// produce the identical terminal state, or fail with the identical error.
pub proof fn lemma_decrease_full_equals_close(
    p: Position,
    u: UserAccount,
    tiers: Seq<LeverageTier>,
    owner: u64,
    position_id: u64,
    execution_price: u64,
    funding_payment: i64,
    now: i64,
)
    requires
        p.size > 0,
    ensures
        spec_modify(
            p, u, tiers, owner, position_id,
            (ModifyPositionParams {
                action: ModifyAction::DecreaseSize {
                    delta_size: p.size,
                    execution_price,
                },
                funding_payment,
            }),
            now,
        ) == spec_close(p, u, tiers, owner, position_id, execution_price, funding_payment, now),
{
    if p.position_id == position_id && p.owner == owner && execution_price > 0 {
        let d = spec_decrease(p, u, tiers, p.size, execution_price, funding_payment);
        if d is Ok {
            vstd::arithmetic::div_mod::lemma_div_by_multiple(p.margin as int, p.size as int);
            assert(p.margin * p.size / (p.size as int) == p.margin);
        }
    }
}

/// Removing margin fails with `MarginTooLow` whenever the amount would leave
/// the margin below the maintenance-level requirement for the current
/// notional and tier — even when the amount itself is covered by the margin.
pub proof fn lemma_remove_margin_maintenance_floor(
    p: Position,
    u: UserAccount,
    tiers: Seq<LeverageTier>,
    amount: u64,
    funding_payment: i64,
)
    requires
        0 < amount <= p.margin,
        ({
            let notional = spec_notional(p.size as int, p.entry_price as int);
            match spec_resolve(tiers, p.leverage as int, notional) {
                Some(tier) => {
                    let target = spec_required_margin(
                        notional,
                        p.leverage as int,
                        tier.maintenance_margin_rate_bps as int,
                    );
                    p.leverage != 0
                        && notional * tier.maintenance_margin_rate_bps <= u128::MAX
                        && target <= u64::MAX
                        && p.margin - amount < target
                }
                None => false,
            }
        }),
    ensures
        spec_remove_margin(p, u, tiers, amount, funding_payment)
            == Err::<(Position, UserAccount), PositionError>(PositionError::MarginTooLow),
{
}

/// Opening at leverage beyond the default table's highest ceiling fails with
/// `LeverageExceeded`, whatever the notional: validation admits the request
/// and tier resolution then rejects it.
pub proof fn lemma_leverage_beyond_cap_fails(
    u: UserAccount,
    owner: u64,
    position_id: u64,
    symbol: String,
    side: PositionSide,
    size: u64,
    leverage: u16,
    entry_price: u64,
    now: i64,
)
    requires
        leverage > 1000,
        symbol@.len() <= MAX_SYMBOL_LEN,
        size > 0,
        entry_price > 0,
        u.owner == owner,
    ensures
        spec_open(
            u,
            crate::risk::spec_default_tiers(),
            owner, position_id, symbol, side, size, leverage, entry_price, now,
        ) == Err::<(Position, UserAccount), PositionError>(PositionError::LeverageExceeded),
{
    let tiers = crate::risk::spec_default_tiers();
    let notional = spec_notional(size as int, entry_price as int);
    crate::risk::lemma_default_tiers_cap();
    crate::risk::lemma_resolve_first_match(tiers, leverage as int, notional);
    if crate::risk::spec_resolve_idx(tiers, leverage as int, notional) is Some {
        let i = crate::risk::spec_resolve_idx(tiers, leverage as int, notional)->0;
        assert(crate::risk::tier_admits(tiers[i], leverage as int, notional));
        assert(tiers[i].max_leverage <= 1000);
        assert(false);
    }
}

/// Funding payments are purely additive: for any action, running the same
/// request with and without its funding payment yields states that agree on
/// every field but `funding_accrued` — margin, locked collateral and
/// leverage never move on account of funding — and where the action accrues
/// funding, `funding_accrued` grows by exactly the payment.
pub proof fn lemma_funding_only_accrues(
    p: Position,
    u: UserAccount,
    tiers: Seq<LeverageTier>,
    owner: u64,
    position_id: u64,
    action: ModifyAction,
    funding_payment: i64,
    now: i64,
)
    ensures
        ({
            let with = spec_modify(
                p, u, tiers, owner, position_id,
                (ModifyPositionParams { action, funding_payment }),
                now,
            );
            let without = spec_modify(
                p, u, tiers, owner, position_id,
                (ModifyPositionParams { action, funding_payment: 0 }),
                now,
            );
            (with is Ok && without is Ok) ==> {
                let (pw, uw) = with->Ok_0;
                let (po, uo) = without->Ok_0;
                uw == uo && pw.margin == po.margin && pw.leverage == po.leverage
                    && pw.size == po.size && pw.entry_price == po.entry_price
                    && pw.liquidation_price == po.liquidation_price
                    && pw.realized_pnl == po.realized_pnl
                    && pw.unrealized_pnl == po.unrealized_pnl
                    && po.funding_accrued == p.funding_accrued
                    && pw.funding_accrued == (match action {
                        ModifyAction::IncreaseSize { .. } => p.funding_accrued as int,
                        _ => p.funding_accrued + funding_payment,
                    })
            }
        }),
{
}

} // verus!
