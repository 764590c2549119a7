//! Leveraged-position accounting: tier resolution, margin and liquidation
//! math, and the position-mutation state machine, in scaled-integer
//! fixed-point arithmetic with every operation checked for overflow.

pub mod engine;
pub mod errors;
pub mod margin;
pub mod math;
pub mod risk;
pub mod state;

use vstd::prelude::*;

verus! {

/// Prices carry six decimal places: a stored price of 1_000_000 is 1.0.
pub const PRICE_DECIMALS: u128 = 1_000_000;

/// Rates are expressed in basis points; 10_000 bps is 100%.
pub const BASIS_POINTS_DIVISOR: u128 = 10_000;

} // verus!
