//! Error taxonomy for the position engine and the margin calculator.

use vstd::prelude::*;

verus! {

/// Typed failure of an engine operation. Every failing call returns one of
/// these and leaves the position and the ledger unchanged.
#[derive(Clone, Copy, Debug, PartialEq, Eq, Structural)]
pub enum PositionError {
    /// The symbol is longer than the supported maximum.
    SymbolTooLong,
    /// The requested leverage is below the minimum of 1.
    InvalidLeverage,
    /// A size, delta or price that must be positive was zero.
    InvalidPositionSize,
    /// A position with the given identifier already exists.
    PositionAlreadyInitialized,
    /// The caller does not own the account or position.
    Unauthorized,
    /// The owner's free collateral cannot cover the required margin.
    InsufficientCollateral,
    /// A checked arithmetic step overflowed or divided by zero.
    MathOverflow,
    /// No leverage tier admits the requested leverage and notional.
    LeverageExceeded,
    /// The request names a different position than the stored record.
    PositionIdMismatch,
    /// The position is already flat.
    PositionClosed,
    /// Removing or retaining less margin than the tier requires.
    MarginTooLow,
    /// The decrease is larger than the open size.
    PositionSizeTooSmall,
    /// A funding payment would overflow the accrued total.
    FundingOverflow,
}

/// Failure of a standalone margin-summary calculation.
#[derive(Clone, Copy, Debug, PartialEq, Eq, Structural)]
pub enum MarginError {
    /// The calculation left the representable range.
    Overflow,
    /// A size or notional that must be positive was zero.
    InvalidSize,
}

} // verus!
