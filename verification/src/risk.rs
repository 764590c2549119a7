//! Leverage tiers: the rate table and the tier-resolution rule.

use vstd::prelude::*;

use crate::errors::PositionError;
use crate::math::spec_rate_margin;
use crate::BASIS_POINTS_DIVISOR;

verus! {

/// One leverage bracket: a ceiling on leverage, its margin rates in basis
/// points, and a cap on the notional it admits. Notional caps carry the
/// six-decimal price scale.
#[derive(Clone, Copy, Debug, PartialEq, Eq, Structural)]
pub struct LeverageTier {
    pub max_leverage: u16,
    pub initial_margin_rate_bps: u64,
    pub maintenance_margin_rate_bps: u64,
    pub max_position_notional: u128,
}

/// Whether a tier admits the requested leverage and notional.
pub open spec fn tier_admits(t: LeverageTier, leverage: int, notional: int) -> bool {
    leverage <= t.max_leverage && notional <= t.max_position_notional
}

/// Index of the first tier that admits the request, scanning in table order.
pub open spec fn spec_resolve_idx(tiers: Seq<LeverageTier>, leverage: int, notional: int) -> Option<int>
    decreases tiers.len(),
{
    if tiers.len() == 0 {
        None
    } else if tier_admits(tiers[0], leverage, notional) {
        Some(0)
    } else {
        match spec_resolve_idx(tiers.drop_first(), leverage, notional) {
            Some(i) => Some(i + 1),
            None => None,
        }
    }
}

/// The first tier that admits the request, if any.
pub open spec fn spec_resolve(tiers: Seq<LeverageTier>, leverage: int, notional: int) -> Option<LeverageTier> {
    match spec_resolve_idx(tiers, leverage, notional) {
        Some(i) => Some(tiers[i]),
        None => None,
    }
}

/// Resolution picks the first admitting tier: nothing before the result
/// admits the request, and a `None` means nothing in the table does.
pub proof fn lemma_resolve_first_match(tiers: Seq<LeverageTier>, leverage: int, notional: int)
    ensures
        match spec_resolve_idx(tiers, leverage, notional) {
            Some(i) => 0 <= i < tiers.len() && tier_admits(tiers[i], leverage, notional)
                && forall|j: int| 0 <= j < i ==> !tier_admits(tiers[j], leverage, notional),
            None => forall|j: int| 0 <= j < tiers.len()
                ==> !tier_admits(tiers[j], leverage, notional),
        },
    decreases tiers.len(),
{
    if tiers.len() == 0 {
    } else if tier_admits(tiers[0], leverage, notional) {
    } else {
        lemma_resolve_first_match(tiers.drop_first(), leverage, notional);
        assert forall|j: int| 0 <= j < tiers.len() && j >= 1
            implies tiers.drop_first()[j - 1] == tiers[j] by {}
    }
}

/// Tier resolution is deterministic and monotonic in the requested leverage:
/// for a fixed notional, raising the leverage never moves the resolved tier
/// earlier in the table, and where the raised request still resolves, the
/// lower-leverage one did too.
pub proof fn lemma_tier_resolution_monotonic(
    tiers: Seq<LeverageTier>,
    notional: int,
    leverage_lo: int,
    leverage_hi: int,
)
    requires
        leverage_lo <= leverage_hi,
    ensures
        spec_resolve_idx(tiers, leverage_hi, notional) is Some
            ==> spec_resolve_idx(tiers, leverage_lo, notional) is Some,
        (spec_resolve_idx(tiers, leverage_lo, notional) is Some
            && spec_resolve_idx(tiers, leverage_hi, notional) is Some)
            ==> spec_resolve_idx(tiers, leverage_lo, notional)->0
                <= spec_resolve_idx(tiers, leverage_hi, notional)->0,
    decreases tiers.len(),
{
    if tiers.len() == 0 {
    } else if tier_admits(tiers[0], leverage_lo, notional) {
        lemma_resolve_first_match(tiers, leverage_hi, notional);
    } else {
        assert(!tier_admits(tiers[0], leverage_hi, notional));
        lemma_tier_resolution_monotonic(tiers.drop_first(), notional, leverage_lo, leverage_hi);
    }
}

/// The first tier that admits `leverage` and `position_notional`, scanning
/// in table order; `LeverageExceeded` when none does.
pub fn get_leverage_tier(
    tiers: &Vec<LeverageTier>,
    leverage: u16,
    position_notional: u128,
) -> (r: Result<LeverageTier, PositionError>)
    ensures
        r == (match spec_resolve(tiers@, leverage as int, position_notional as int) {
            Some(t) => Ok::<LeverageTier, PositionError>(t),
            None => Err::<LeverageTier, PositionError>(PositionError::LeverageExceeded),
        }),
{
    proof {
        lemma_resolve_first_match(tiers@, leverage as int, position_notional as int);
    }
    let n = tiers.len();
    let mut i: usize = 0;
    while i < n
        invariant
            n == tiers@.len(),
            0 <= i <= n,
            forall|j: int| 0 <= j < i
                ==> !tier_admits(tiers@[j], leverage as int, position_notional as int),
            match spec_resolve_idx(tiers@, leverage as int, position_notional as int) {
                Some(k) => 0 <= k < tiers@.len()
                    && tier_admits(tiers@[k], leverage as int, position_notional as int)
                    && forall|j: int| 0 <= j < k
                        ==> !tier_admits(tiers@[j], leverage as int, position_notional as int),
                None => forall|j: int| 0 <= j < tiers@.len()
                    ==> !tier_admits(tiers@[j], leverage as int, position_notional as int),
            },
        decreases n - i,
    {
        let tier = tiers[i];
        if leverage <= tier.max_leverage && position_notional <= tier.max_position_notional {
            return Ok(tier);
        }
        i = i + 1;
    }
    Err(PositionError::LeverageExceeded)
}

/// Margin implied by a basis-point rate: `notional * rate_bps / 10_000`.
pub fn margin_from_rate(notional: u128, rate_bps: u64) -> (r: Result<u128, PositionError>)
    ensures
        r == (if notional * rate_bps <= u128::MAX {
            Ok::<u128, PositionError>(spec_rate_margin(notional as int, rate_bps as int) as u128)
        } else {
            Err::<u128, PositionError>(PositionError::MathOverflow)
        }),
{
    match notional.checked_mul(rate_bps as u128) {
        Some(numerator) => Ok(numerator / (BASIS_POINTS_DIVISOR as u128)),
        None => Err(PositionError::MathOverflow),
    }
}

/// The default tier table: ascending leverage ceilings with descending
/// notional caps and margin rates.
pub open spec fn spec_default_tiers() -> Seq<LeverageTier> {
    seq![
        LeverageTier {
            max_leverage: 20,
            initial_margin_rate_bps: 500,
            maintenance_margin_rate_bps: 250,
            max_position_notional: u128::MAX,
        },
        LeverageTier {
            max_leverage: 50,
            initial_margin_rate_bps: 200,
            maintenance_margin_rate_bps: 100,
            max_position_notional: 100_000_000_000,
        },
        LeverageTier {
            max_leverage: 100,
            initial_margin_rate_bps: 100,
            maintenance_margin_rate_bps: 50,
            max_position_notional: 50_000_000_000,
        },
        LeverageTier {
            max_leverage: 500,
            initial_margin_rate_bps: 50,
            maintenance_margin_rate_bps: 25,
            max_position_notional: 20_000_000_000,
        },
        LeverageTier {
            max_leverage: 1000,
            initial_margin_rate_bps: 20,
            maintenance_margin_rate_bps: 10,
            max_position_notional: 5_000_000_000,
        },
    ]
}

/// No default tier allows leverage beyond 1000.
pub proof fn lemma_default_tiers_cap()
    ensures
        forall|j: int| 0 <= j < spec_default_tiers().len()
            ==> #[trigger] spec_default_tiers()[j].max_leverage <= 1000,
{
    assert forall|j: int| 0 <= j < spec_default_tiers().len()
        implies #[trigger] spec_default_tiers()[j].max_leverage <= 1000 by {
        if j == 0 {
        } else if j == 1 {
        } else if j == 2 {
        } else if j == 3 {
        } else {
            assert(j == 4);
        }
    }
}

/// The default tier table, as configured for both deployments.
pub fn default_leverage_tiers() -> (r: Vec<LeverageTier>)
    ensures
        r@ == spec_default_tiers(),
{
    let mut tiers: Vec<LeverageTier> = Vec::new();
    tiers.push(LeverageTier {
        max_leverage: 20,
        initial_margin_rate_bps: 500,
        maintenance_margin_rate_bps: 250,
        max_position_notional: u128::MAX,
    });
    tiers.push(LeverageTier {
        max_leverage: 50,
        initial_margin_rate_bps: 200,
        maintenance_margin_rate_bps: 100,
        max_position_notional: 100_000_000_000,
    });
    tiers.push(LeverageTier {
        max_leverage: 100,
        initial_margin_rate_bps: 100,
        maintenance_margin_rate_bps: 50,
        max_position_notional: 50_000_000_000,
    });
    tiers.push(LeverageTier {
        max_leverage: 500,
        initial_margin_rate_bps: 50,
        maintenance_margin_rate_bps: 25,
        max_position_notional: 20_000_000_000,
    });
    tiers.push(LeverageTier {
        max_leverage: 1000,
        initial_margin_rate_bps: 20,
        maintenance_margin_rate_bps: 10,
        max_position_notional: 5_000_000_000,
    });
    proof {
        assert(tiers@ =~= spec_default_tiers());
    }
    tiers
}

} // verus!
