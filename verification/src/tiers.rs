//! Profit tiers: the immutable ladder of partial-sell rules.
//!
//! A tier names the price ratio at which it triggers, the fraction of the
//! current position it sells, a safety buffer on the gas estimate, and how
//! strongly observed volatility discounts its trigger. A ladder is a short
//! vector of tiers in strictly ascending multiplier order whose sell
//! fractions sum to at most one.

use vstd::prelude::*;

use crate::fixed::{MAX_GAS_BUFFER, MAX_MULTIPLIER, MAX_TIERS, SCALE};

verus! {

/// One profit-taking rule, immutable once the ladder is built.
#[derive(Debug, Clone, Copy, PartialEq, Eq, Structural)]
pub struct ProfitTier {
    /// Trigger ratio of current price to entry price, scaled by `SCALE`.
    pub multiplier: u64,
    /// Fraction of the current position sold when the tier fires, scaled
    /// by `SCALE` and at most `SCALE`.
    pub percentage: u64,
    /// Safety factor applied to the gas estimate when costing the sell,
    /// scaled by `SCALE`.
    pub gas_buffer: u64,
    /// How strongly observed volatility discounts the trigger, scaled by
    /// `SCALE` and at most `SCALE`.
    pub volatility_adjustment: u64,
}

/// Field-level sanity of one tier.
pub open spec fn tier_valid(t: ProfitTier) -> bool {
    &&& 0 < t.multiplier <= MAX_MULTIPLIER
    &&& t.percentage <= SCALE
    &&& t.gas_buffer <= MAX_GAS_BUFFER
    &&& t.volatility_adjustment <= SCALE
}

/// Sum of the sell fractions of a ladder.
pub open spec fn sum_percentages(s: Seq<ProfitTier>) -> int
    decreases s.len(),
{
    if s.len() == 0 {
        0
    } else {
        sum_percentages(s.drop_last()) + s.last().percentage
    }
}

/// The multipliers of a ladder, in ladder order.
pub open spec fn ladder_multipliers(s: Seq<ProfitTier>) -> Seq<u64> {
    s.map_values(|t: ProfitTier| t.multiplier)
}

/// A well-formed ladder: every tier valid, multipliers strictly
/// ascending, sell fractions summing to at most one, and no more tiers
/// than the engine accepts.
pub open spec fn ladder_valid(s: Seq<ProfitTier>) -> bool {
    &&& s.len() <= MAX_TIERS
    &&& forall|i: int| 0 <= i < s.len() ==> tier_valid(#[trigger] s[i])
    &&& forall|i: int, j: int|
        0 <= i < j < s.len() ==> (#[trigger] s[i].multiplier) < (#[trigger] s[j].multiplier)
    &&& sum_percentages(s) <= SCALE
}

/// Checks a ladder offered by a caller, accepting it exactly when it is
/// well formed.
pub fn validate_ladder(tiers: &Vec<ProfitTier>) -> (ok: bool)
    ensures
        ok == ladder_valid(tiers@),
{
    if tiers.len() > MAX_TIERS {
        return false;
    }
    let mut i: usize = 0;
    let mut pct_sum: u64 = 0;
    while i < tiers.len()
        invariant
            0 <= i <= tiers@.len() <= MAX_TIERS,
            forall|k: int| 0 <= k < i ==> tier_valid(#[trigger] tiers@[k]),
            forall|k: int, j: int|
                0 <= k < j < i ==> (#[trigger] tiers@[k].multiplier) < (#[trigger] tiers@[
                    j
                ].multiplier),
            pct_sum == sum_percentages(tiers@.take(i as int)),
            pct_sum <= i * SCALE,
        decreases tiers@.len() - i,
    {
        let t = tiers[i];
        if !(0 < t.multiplier && t.multiplier <= MAX_MULTIPLIER && t.percentage <= SCALE
            && t.gas_buffer <= MAX_GAS_BUFFER && t.volatility_adjustment <= SCALE) {
            return false;
        }
        if i > 0 && tiers[i - 1].multiplier >= t.multiplier {
            return false;
        }
        proof {
            assert(tiers@.take(i + 1).drop_last() =~= tiers@.take(i as int));
        }
        pct_sum = pct_sum + t.percentage;
        i = i + 1;
    }
    proof {
        assert(tiers@.take(tiers@.len() as int) =~= tiers@);
    }
    pct_sum <= SCALE
}

/// The stock four-rung ladder: sell 40% at 1.2x, 30% at 1.5x, 20% at 2x
/// and 10% at 3x, with gas buffers and volatility sensitivities that
/// grow with the target.
pub fn default_profit_tiers() -> (r: Vec<ProfitTier>)
    ensures
        r@.len() == 4,
        r@[0] == (ProfitTier {
            multiplier: 1_200_000,
            percentage: 400_000,
            gas_buffer: 1_100_000,
            volatility_adjustment: 50_000,
        }),
        r@[1] == (ProfitTier {
            multiplier: 1_500_000,
            percentage: 300_000,
            gas_buffer: 1_200_000,
            volatility_adjustment: 100_000,
        }),
        r@[2] == (ProfitTier {
            multiplier: 2_000_000,
            percentage: 200_000,
            gas_buffer: 1_300_000,
            volatility_adjustment: 150_000,
        }),
        r@[3] == (ProfitTier {
            multiplier: 3_000_000,
            percentage: 100_000,
            gas_buffer: 1_500_000,
            volatility_adjustment: 200_000,
        }),
        ladder_valid(r@),
{
    let mut r: Vec<ProfitTier> = Vec::new();
    r.push(ProfitTier {
        multiplier: 1_200_000,
        percentage: 400_000,
        gas_buffer: 1_100_000,
        volatility_adjustment: 50_000,
    });
    r.push(ProfitTier {
        multiplier: 1_500_000,
        percentage: 300_000,
        gas_buffer: 1_200_000,
        volatility_adjustment: 100_000,
    });
    r.push(ProfitTier {
        multiplier: 2_000_000,
        percentage: 200_000,
        gas_buffer: 1_300_000,
        volatility_adjustment: 150_000,
    });
    r.push(ProfitTier {
        multiplier: 3_000_000,
        percentage: 100_000,
        gas_buffer: 1_500_000,
        volatility_adjustment: 200_000,
    });
    proof {
        let s = r@;
        assert(s.take(1).drop_last() =~= s.take(0));
        assert(s.take(2).drop_last() =~= s.take(1));
        assert(s.take(3).drop_last() =~= s.take(2));
        assert(s.take(4).drop_last() =~= s.take(3));
        assert(s.take(4) =~= s);
        assert(sum_percentages(s.take(0)) == 0);
        assert(sum_percentages(s.take(1)) == 400_000);
        assert(sum_percentages(s.take(2)) == 700_000);
        assert(sum_percentages(s.take(3)) == 900_000);
        assert(sum_percentages(s.take(4)) == 1_000_000);
    }
    r
}

} // verus!
