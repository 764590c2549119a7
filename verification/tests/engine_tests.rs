use position_manager::engine::{
    close_position, modify_position, open_position, ModifyAction, ModifyPositionParams,
};
use position_manager::errors::PositionError;
use position_manager::risk::{default_leverage_tiers, LeverageTier};
use position_manager::state::{Position, PositionSide, UserAccount};

const ENTRY_100: u64 = 100_000_000;
const PRICE_150: u64 = 150_000_000;
const PRICE_200: u64 = 200_000_000;

fn fresh_user() -> UserAccount {
    UserAccount {
        owner: 7,
        total_collateral: 1000,
        locked_collateral: 0,
        total_pnl: 0,
        position_count: 0,
    }
}

fn open_default(user: &mut UserAccount, tiers: &Vec<LeverageTier>) -> Position {
    open_position(
        user,
        tiers,
        7,
        1,
        String::from("BTC-PERP"),
        PositionSide::Long,
        10,
        10,
        ENTRY_100,
        42,
    )
    .expect("open must succeed")
}

#[test]
fn open_locks_canonical_margin() {
    let tiers = default_leverage_tiers();
    let mut user = fresh_user();
    let p = open_default(&mut user, &tiers);
    // notional 1000; ceil(1000/10)=100 beats the 5% rate floor of 50.
    assert_eq!(p.size, 10);
    assert_eq!(p.entry_price, ENTRY_100);
    assert_eq!(p.margin, 100);
    assert_eq!(p.leverage, 10);
    assert_eq!(p.unrealized_pnl, 0);
    assert_eq!(p.realized_pnl, 0);
    assert_eq!(p.funding_accrued, 0);
    assert_eq!(p.liquidation_price, 92_500_000);
    assert_eq!(p.last_update, 42);
    assert_eq!(user.locked_collateral, 100);
    assert_eq!(user.total_collateral, 1000);
    assert_eq!(user.position_count, 1);
    assert_eq!(user.available_collateral(), 900);
}

#[test]
fn open_rejects_bad_requests() {
    let tiers = default_leverage_tiers();
    let mut user = fresh_user();
    let symbol_too_long = String::from("ABCDEFGHIJKLMNOPQ");
    assert_eq!(
        open_position(&mut user, &tiers, 7, 1, symbol_too_long, PositionSide::Long, 10, 10, ENTRY_100, 0)
            .unwrap_err(),
        PositionError::SymbolTooLong
    );
    assert_eq!(
        open_position(&mut user, &tiers, 7, 1, String::from("X"), PositionSide::Long, 10, 0, ENTRY_100, 0)
            .unwrap_err(),
        PositionError::InvalidLeverage
    );
    assert_eq!(
        open_position(&mut user, &tiers, 7, 1, String::from("X"), PositionSide::Long, 0, 10, ENTRY_100, 0)
            .unwrap_err(),
        PositionError::InvalidPositionSize
    );
    assert_eq!(
        open_position(&mut user, &tiers, 7, 1, String::from("X"), PositionSide::Long, 10, 10, 0, 0)
            .unwrap_err(),
        PositionError::InvalidPositionSize
    );
    assert_eq!(
        open_position(&mut user, &tiers, 9, 1, String::from("X"), PositionSide::Long, 10, 10, ENTRY_100, 0)
            .unwrap_err(),
        PositionError::Unauthorized
    );
    // nothing was locked by any failing call
    assert_eq!(user.locked_collateral, 0);
    assert_eq!(user.position_count, 0);
}

#[test]
fn open_with_leverage_2000_fails_leverage_exceeded() {
    let tiers = default_leverage_tiers();
    for size in [1u64, 10, 1_000_000] {
        let mut user = fresh_user();
        let got = open_position(
            &mut user, &tiers, 7, 1, String::from("X"), PositionSide::Long, size, 2000,
            ENTRY_100, 0,
        );
        assert_eq!(got.unwrap_err(), PositionError::LeverageExceeded);
    }
}

#[test]
fn open_insufficient_collateral() {
    let tiers = default_leverage_tiers();
    let mut user = fresh_user();
    user.total_collateral = 99; // required margin is 100
    let got = open_position(
        &mut user, &tiers, 7, 1, String::from("X"), PositionSide::Long, 10, 10, ENTRY_100, 0,
    );
    assert_eq!(got.unwrap_err(), PositionError::InsufficientCollateral);
    assert_eq!(user.locked_collateral, 0);
}

#[test]
fn open_required_margin_beyond_u64_overflows() {
    let tiers = default_leverage_tiers();
    let mut user = fresh_user();
    user.total_collateral = u64::MAX;
    let got = open_position(
        &mut user, &tiers, 7, 1, String::from("X"), PositionSide::Long, u64::MAX, 1,
        u64::MAX, 0,
    );
    assert_eq!(got.unwrap_err(), PositionError::MathOverflow);
}

#[test]
fn increase_recomputes_weighted_entry() {
    let tiers = default_leverage_tiers();
    let mut user = fresh_user();
    let mut p = open_default(&mut user, &tiers);
    let r = modify_position(
        &mut p,
        &mut user,
        &tiers,
        7,
        1,
        ModifyPositionParams {
            action: ModifyAction::IncreaseSize { delta_size: 10, execution_price: PRICE_200 },
            funding_payment: 0,
        },
        43,
    );
    assert!(r.is_ok());
    // 10 @ 100 plus 10 @ 200 is 20 @ 150, notional 3000, margin ceil(3000/10).
    assert_eq!(p.size, 20);
    assert_eq!(p.entry_price, PRICE_150);
    assert_eq!(p.margin, 300);
    assert_eq!(p.leverage, 10);
    assert_eq!(p.unrealized_pnl, 0);
    assert_eq!(p.liquidation_price, 138_750_000);
    assert_eq!(p.last_update, 43);
    assert_eq!(user.locked_collateral, 300);
}

#[test]
fn decrease_realizes_pnl_and_releases_margin_proportionally() {
    let tiers = default_leverage_tiers();
    let mut user = fresh_user();
    let mut p = open_default(&mut user, &tiers);
    let r = modify_position(
        &mut p,
        &mut user,
        &tiers,
        7,
        1,
        ModifyPositionParams {
            action: ModifyAction::DecreaseSize { delta_size: 4, execution_price: PRICE_150 },
            funding_payment: 0,
        },
        44,
    );
    assert!(r.is_ok());
    // closed slice: 4 units, entry 100 -> exec 150 long: pnl +200;
    // released margin: 100 * 4/10 = 40.
    assert_eq!(p.size, 6);
    assert_eq!(p.entry_price, ENTRY_100);
    assert_eq!(p.margin, 60);
    assert_eq!(p.realized_pnl, 200);
    assert_eq!(p.leverage, 10);
    assert_eq!(p.liquidation_price, 92_500_000);
    assert_eq!(user.locked_collateral, 60);
    assert_eq!(user.total_pnl, 200);
}

#[test]
fn decrease_short_realizes_negative_pnl_on_rising_price() {
    let tiers = default_leverage_tiers();
    let mut user = fresh_user();
    let mut p = open_position(
        &mut user, &tiers, 7, 1, String::from("BTC-PERP"), PositionSide::Short, 10, 10,
        ENTRY_100, 42,
    )
    .expect("open must succeed");
    let r = modify_position(
        &mut p,
        &mut user,
        &tiers,
        7,
        1,
        ModifyPositionParams {
            action: ModifyAction::DecreaseSize { delta_size: 4, execution_price: PRICE_150 },
            funding_payment: 0,
        },
        44,
    );
    assert!(r.is_ok());
    assert_eq!(p.realized_pnl, -200);
    assert_eq!(user.total_pnl, -200);
}

#[test]
fn decrease_more_than_size_fails() {
    let tiers = default_leverage_tiers();
    let mut user = fresh_user();
    let mut p = open_default(&mut user, &tiers);
    let r = modify_position(
        &mut p,
        &mut user,
        &tiers,
        7,
        1,
        ModifyPositionParams {
            action: ModifyAction::DecreaseSize { delta_size: 11, execution_price: PRICE_150 },
            funding_payment: 0,
        },
        44,
    );
    assert_eq!(r.unwrap_err(), PositionError::PositionSizeTooSmall);
    assert_eq!(p.size, 10);
    assert_eq!(p.margin, 100);
    assert_eq!(user.locked_collateral, 100);
}

#[test]
fn decrease_zero_delta_fails() {
    let tiers = default_leverage_tiers();
    let mut user = fresh_user();
    let mut p = open_default(&mut user, &tiers);
    let r = modify_position(
        &mut p,
        &mut user,
        &tiers,
        7,
        1,
        ModifyPositionParams {
            action: ModifyAction::DecreaseSize { delta_size: 0, execution_price: PRICE_150 },
            funding_payment: 0,
        },
        44,
    );
    assert_eq!(r.unwrap_err(), PositionError::InvalidPositionSize);
}

#[test]
fn round_trip_open_close_at_entry_restores_ledger() {
    let tiers = default_leverage_tiers();
    let mut user = fresh_user();
    let locked_before = user.locked_collateral;
    let mut p = open_default(&mut user, &tiers);
    let r = close_position(&mut p, &mut user, &tiers, 7, 1, ENTRY_100, 0, 45);
    assert!(r.is_ok());
    assert_eq!(p.realized_pnl, 0);
    assert_eq!(p.margin, 0);
    assert_eq!(p.size, 0);
    assert_eq!(p.leverage, 0);
    assert_eq!(p.liquidation_price, 0);
    assert_eq!(p.unrealized_pnl, 0);
    assert_eq!(user.locked_collateral, locked_before);
    assert_eq!(user.total_pnl, 0);
}

#[test]
fn decrease_full_size_equals_close() {
    let tiers = default_leverage_tiers();

    let mut user_a = fresh_user();
    let mut p_a = open_default(&mut user_a, &tiers);
    let r_a = modify_position(
        &mut p_a,
        &mut user_a,
        &tiers,
        7,
        1,
        ModifyPositionParams {
            action: ModifyAction::DecreaseSize { delta_size: 10, execution_price: PRICE_150 },
            funding_payment: 0,
        },
        46,
    );

    let mut user_b = fresh_user();
    let mut p_b = open_default(&mut user_b, &tiers);
    let r_b = close_position(&mut p_b, &mut user_b, &tiers, 7, 1, PRICE_150, 0, 46);

    assert!(r_a.is_ok() && r_b.is_ok());
    assert_eq!(user_a, user_b);
    assert_eq!(p_a.size, p_b.size);
    assert_eq!(p_a.entry_price, p_b.entry_price);
    assert_eq!(p_a.margin, p_b.margin);
    assert_eq!(p_a.leverage, p_b.leverage);
    assert_eq!(p_a.unrealized_pnl, p_b.unrealized_pnl);
    assert_eq!(p_a.realized_pnl, p_b.realized_pnl);
    assert_eq!(p_a.funding_accrued, p_b.funding_accrued);
    assert_eq!(p_a.liquidation_price, p_b.liquidation_price);
    assert_eq!(p_a.last_update, p_b.last_update);
}

#[test]
fn funding_is_purely_additive() {
    let tiers = default_leverage_tiers();

    let mut user_f = fresh_user();
    let mut p_f = open_default(&mut user_f, &tiers);
    modify_position(
        &mut p_f,
        &mut user_f,
        &tiers,
        7,
        1,
        ModifyPositionParams {
            action: ModifyAction::DecreaseSize { delta_size: 4, execution_price: PRICE_150 },
            funding_payment: 9,
        },
        47,
    )
    .expect("decrease with funding");

    let mut user_z = fresh_user();
    let mut p_z = open_default(&mut user_z, &tiers);
    modify_position(
        &mut p_z,
        &mut user_z,
        &tiers,
        7,
        1,
        ModifyPositionParams {
            action: ModifyAction::DecreaseSize { delta_size: 4, execution_price: PRICE_150 },
            funding_payment: 0,
        },
        47,
    )
    .expect("decrease without funding");

    assert_eq!(p_f.funding_accrued, 9);
    assert_eq!(p_z.funding_accrued, 0);
    // everything else agrees: funding moved no margin, collateral or leverage
    assert_eq!(p_f.margin, p_z.margin);
    assert_eq!(p_f.leverage, p_z.leverage);
    assert_eq!(p_f.size, p_z.size);
    assert_eq!(p_f.realized_pnl, p_z.realized_pnl);
    assert_eq!(user_f, user_z);
}

#[test]
fn add_margin_locks_and_rederives_leverage() {
    let tiers = default_leverage_tiers();
    let mut user = fresh_user();
    let mut p = open_default(&mut user, &tiers);
    let r = modify_position(
        &mut p,
        &mut user,
        &tiers,
        7,
        1,
        ModifyPositionParams {
            action: ModifyAction::AddMargin { amount: 50 },
            funding_payment: 3,
        },
        48,
    );
    assert!(r.is_ok());
    assert_eq!(p.margin, 150);
    assert_eq!(p.leverage, 6); // 1000 / 150, truncated
    assert_eq!(p.funding_accrued, 3);
    assert_eq!(user.locked_collateral, 150);
}

#[test]
fn add_margin_beyond_available_fails() {
    let tiers = default_leverage_tiers();
    let mut user = fresh_user();
    let mut p = open_default(&mut user, &tiers);
    let r = modify_position(
        &mut p,
        &mut user,
        &tiers,
        7,
        1,
        ModifyPositionParams {
            action: ModifyAction::AddMargin { amount: 901 },
            funding_payment: 0,
        },
        48,
    );
    assert_eq!(r.unwrap_err(), PositionError::InsufficientCollateral);
    assert_eq!(p.margin, 100);
    assert_eq!(user.locked_collateral, 100);
}

#[test]
fn remove_margin_below_maintenance_fails_margin_too_low() {
    let tiers = default_leverage_tiers();
    let mut user = fresh_user();
    user.locked_collateral = 150;
    let mut p = Position {
        owner: 7,
        position_id: 1,
        symbol: String::from("BTC-PERP"),
        side: PositionSide::Long,
        size: 10,
        entry_price: ENTRY_100,
        margin: 150,
        leverage: 10,
        unrealized_pnl: 0,
        realized_pnl: 0,
        funding_accrued: 0,
        liquidation_price: 92_500_000,
        last_update: 0,
    };
    // maintenance target is max(ceil(1000/10), 1000*2.5%) = 100:
    // removing 60 of the 150 margin would leave 90 below it, though 60 <= 150.
    let r = modify_position(
        &mut p,
        &mut user,
        &tiers,
        7,
        1,
        ModifyPositionParams {
            action: ModifyAction::RemoveMargin { amount: 60 },
            funding_payment: 0,
        },
        49,
    );
    assert_eq!(r.unwrap_err(), PositionError::MarginTooLow);
    assert_eq!(p.margin, 150);
    assert_eq!(user.locked_collateral, 150);

    // removing 40 leaves 110 above the floor and succeeds
    let r2 = modify_position(
        &mut p,
        &mut user,
        &tiers,
        7,
        1,
        ModifyPositionParams {
            action: ModifyAction::RemoveMargin { amount: 40 },
            funding_payment: 0,
        },
        49,
    );
    assert!(r2.is_ok());
    assert_eq!(p.margin, 110);
    assert_eq!(user.locked_collateral, 110);
    assert_eq!(p.leverage, 9); // 1000 / 110, truncated
}

#[test]
fn remove_more_than_margin_fails() {
    let tiers = default_leverage_tiers();
    let mut user = fresh_user();
    let mut p = open_default(&mut user, &tiers);
    let r = modify_position(
        &mut p,
        &mut user,
        &tiers,
        7,
        1,
        ModifyPositionParams {
            action: ModifyAction::RemoveMargin { amount: 101 },
            funding_payment: 0,
        },
        49,
    );
    assert_eq!(r.unwrap_err(), PositionError::MarginTooLow);
}

#[test]
fn modify_rejects_wrong_id_owner_and_flat_position() {
    let tiers = default_leverage_tiers();
    let mut user = fresh_user();
    let mut p = open_default(&mut user, &tiers);
    let params = ModifyPositionParams {
        action: ModifyAction::AddMargin { amount: 10 },
        funding_payment: 0,
    };
    assert_eq!(
        modify_position(&mut p, &mut user, &tiers, 7, 2, params, 50).unwrap_err(),
        PositionError::PositionIdMismatch
    );
    assert_eq!(
        modify_position(&mut p, &mut user, &tiers, 8, 1, params, 50).unwrap_err(),
        PositionError::Unauthorized
    );
    close_position(&mut p, &mut user, &tiers, 7, 1, ENTRY_100, 0, 50).expect("close");
    assert_eq!(
        modify_position(&mut p, &mut user, &tiers, 7, 1, params, 50).unwrap_err(),
        PositionError::PositionClosed
    );
    assert_eq!(
        close_position(&mut p, &mut user, &tiers, 7, 1, ENTRY_100, 0, 50).unwrap_err(),
        PositionError::PositionClosed
    );
}

#[test]
fn available_collateral_stays_non_negative_over_sequences() {
    let tiers = default_leverage_tiers();
    let mut user = fresh_user();
    let mut p = open_default(&mut user, &tiers);
    let actions = [
        ModifyAction::IncreaseSize { delta_size: 5, execution_price: PRICE_200 },
        ModifyAction::AddMargin { amount: 37 },
        ModifyAction::DecreaseSize { delta_size: 3, execution_price: PRICE_150 },
        ModifyAction::RemoveMargin { amount: 11 },
        ModifyAction::DecreaseSize { delta_size: 100, execution_price: PRICE_150 },
        ModifyAction::IncreaseSize { delta_size: 2, execution_price: ENTRY_100 },
        ModifyAction::AddMargin { amount: 10_000 },
        ModifyAction::DecreaseSize { delta_size: 7, execution_price: PRICE_200 },
    ];
    for (step, action) in actions.iter().enumerate() {
        // failures are allowed; the ledger must stay consistent either way
        let _ = modify_position(
            &mut p,
            &mut user,
            &tiers,
            7,
            1,
            ModifyPositionParams { action: *action, funding_payment: (step as i64) - 3 },
            60 + step as i64,
        );
        assert!(user.locked_collateral <= user.total_collateral);
        assert!(user.available_collateral() as u64 == user.total_collateral - user.locked_collateral);
        assert!(p.margin <= user.locked_collateral);
    }
}
