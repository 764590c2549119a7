//! Position and owner-ledger records and their well-formedness.

use vstd::prelude::*;

verus! {

/// A symbol may hold at most this many bytes.
pub const MAX_SYMBOL_LEN: usize = 16;

/// Direction of a position.
#[derive(Clone, Copy, Debug, PartialEq, Eq, Structural)]
pub enum PositionSide {
    Long,
    Short,
}

impl PositionSide {
    /// Sign of a price move that profits the position: +1 for long, -1 for short.
    pub fn direction(&self) -> (d: i64)
        ensures
            d == self.spec_direction(),
    {
        match self {
            PositionSide::Long => 1,
            PositionSide::Short => -1,
        }
    }

    /// Sign of a profitable price move, as a mathematical integer.
    pub open spec fn spec_direction(self) -> int {
        match self {
            PositionSide::Long => 1,
            PositionSide::Short => -1,
        }
    }

    pub fn is_long(&self) -> (r: bool)
        ensures
            r == (self is Long),
    {
        matches!(self, PositionSide::Long)
    }
}

/// One leveraged position. Prices carry six decimal places; sizes are whole
/// units; margin and collateral are in the quote currency's smallest unit.
#[derive(Debug)]
pub struct Position {
    pub owner: u64,
    pub position_id: u64,
    pub symbol: String,
    pub side: PositionSide,
    pub size: u64,
    pub entry_price: u64,
    pub margin: u64,
    pub leverage: u16,
    pub unrealized_pnl: i64,
    pub realized_pnl: i64,
    pub funding_accrued: i64,
    pub liquidation_price: u64,
    pub last_update: i64,
}

impl Clone for Position {
    fn clone(&self) -> (r: Self)
        ensures
            r == *self,
    {
        Position {
            owner: self.owner,
            position_id: self.position_id,
            symbol: self.symbol.clone(),
            side: self.side,
            size: self.size,
            entry_price: self.entry_price,
            margin: self.margin,
            leverage: self.leverage,
            unrealized_pnl: self.unrealized_pnl,
            realized_pnl: self.realized_pnl,
            funding_accrued: self.funding_accrued,
            liquidation_price: self.liquidation_price,
            last_update: self.last_update,
        }
    }
}

impl Position {
    /// A flat position carries no risk state: zero size forces zero margin,
    /// zero leverage and no liquidation price.
    pub open spec fn flat_is_riskless(self) -> bool {
        self.size == 0 ==> self.margin == 0 && self.leverage == 0
            && self.liquidation_price == 0
    }
}

/// The per-owner collateral ledger.
#[derive(Clone, Copy, Debug, PartialEq, Eq, Structural)]
pub struct UserAccount {
    pub owner: u64,
    pub total_collateral: u64,
    pub locked_collateral: u64,
    pub total_pnl: i64,
    pub position_count: u32,
}

impl UserAccount {
    /// Collateral not yet pledged as margin. Never negative: when the ledger
    /// is well formed this equals `total_collateral - locked_collateral`.
    pub fn available_collateral(&self) -> (r: u128)
        ensures
            r == self.spec_available(),
    {
        let total = self.total_collateral as u128;
        let locked = self.locked_collateral as u128;
        total.saturating_sub(locked)
    }

    /// Free collateral: the total minus the locked part, floored at zero.
    pub open spec fn spec_available(self) -> int {
        if self.locked_collateral <= self.total_collateral {
            self.total_collateral - self.locked_collateral
        } else {
            0
        }
    }

    /// Ledger invariant: pledged collateral never exceeds what is owned.
    pub open spec fn wf(self) -> bool {
        self.locked_collateral <= self.total_collateral
    }
}

/// Invariant tying a position to its owner's ledger: the position's margin
/// is part of the owner's locked collateral, the ledger is well formed, and
/// a flat position carries no risk state.
pub open spec fn wf_pair(p: Position, u: UserAccount) -> bool {
    &&& u.wf()
    &&& p.margin <= u.locked_collateral
    &&& p.flat_is_riskless()
}

/// Runtime test of the position-ledger invariant, for callers that must
/// establish it before invoking an engine operation.
pub fn wf_check(p: &Position, u: &UserAccount) -> (r: bool)
    ensures
        r == wf_pair(*p, *u),
{
    u.locked_collateral <= u.total_collateral && p.margin <= u.locked_collateral
        && (p.size != 0 || (p.margin == 0 && p.leverage == 0 && p.liquidation_price == 0))
}

} // verus!
