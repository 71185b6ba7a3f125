//! Fixed-point arithmetic for prices, sizes and money amounts.
//!
//! Every quantity in the pipeline is a non-negative integer scaled by
//! `SCALE`: a raw value `v` stands for the quantity `v / SCALE`. Price
//! multipliers and fractions use the same scale, so a ratio of `1.2` is
//! stored as `1_200_000`.
//!
//! The `MAX_*` constants bound the admissible raw values. They are wide
//! enough for a million whole units of price or size at six decimal
//! places, and tight enough that every intermediate product in the tier
//! formulas fits in `u128`.

use vstd::prelude::*;

verus! {

/// One whole unit, in raw fixed-point ticks (six decimal places).
pub const SCALE: u64 = 1_000_000;

/// Largest admissible raw price: one million whole units.
pub const MAX_PRICE: u64 = 1_000_000_000_000;

/// Largest admissible raw position size: one million whole units.
pub const MAX_SIZE: u64 = 1_000_000_000_000;

/// Largest admissible raw gas-cost estimate per transaction.
pub const MAX_GAS_ESTIMATE: u64 = 1_000_000_000_000;

/// Largest admissible tier multiplier: a thousandfold target.
pub const MAX_MULTIPLIER: u64 = 1_000_000_000;

/// Largest admissible gas-buffer factor: a hundredfold safety margin.
pub const MAX_GAS_BUFFER: u64 = 100_000_000;

/// Most tiers a ladder may hold.
pub const MAX_TIERS: usize = 64;

/// Largest gas cost a single tier firing can book:
/// `MAX_GAS_ESTIMATE * MAX_GAS_BUFFER / SCALE`.
pub const MAX_FIRE_GAS: u64 = 100_000_000_000_000;

/// Largest net profit a single tier firing can book:
/// `MAX_SIZE * MAX_PRICE / SCALE`.
pub const MAX_FIRE_NET: u64 = 1_000_000_000_000_000_000;

/// Most positions an engine is ever asked to track.
pub const MAX_POSITIONS: usize = 1_000_000_000;

/// Position-size discount applied in volatile markets: `1 - v/2` for an
/// observed volatility `v` in `[0, 1]`.
pub open spec fn spec_position_adjustment(vol: int) -> int {
    SCALE - vol / 2
}

/// A tier's effective trigger ratio once volatility has discounted its
/// nominal multiplier: `m * (1 - v * sensitivity)`.
pub open spec fn spec_adjusted_multiplier(mult: int, vol: int, sens: int) -> int {
    (mult * (SCALE - (vol * sens) / (SCALE as int))) / (SCALE as int)
}

/// The price ratio a position currently trades at: `current / entry`.
pub open spec fn spec_current_multiplier(cur: int, ent: int) -> int {
    (cur * SCALE) / ent
}

/// The price ratio below which selling cannot recoup `costs`:
/// `1 + costs / (size * entry)`. An emptied position has no ratio that
/// recoups anything, so it counts as below every trigger.
pub open spec fn spec_min_profit_multiplier(costs: int, size: int, ent: int) -> int {
    (SCALE as int) + (costs * SCALE * SCALE) / (size * ent)
}

/// Whether a tier's effective trigger sits below the minimum profitable
/// ratio, so that selling at the trigger would lock in a net loss.
pub open spec fn spec_below_min_profit(adj: int, costs: int, size: int, ent: int) -> bool {
    size == 0 || adj < spec_min_profit_multiplier(costs, size, ent)
}

/// Quantity sold when a tier fires: the tier's fraction of the current
/// size, shrunk by the volatility discount.
pub open spec fn spec_sell_amount(size: int, pct: int, vol: int) -> int {
    ((size * pct) / (SCALE as int) * spec_position_adjustment(vol)) / (SCALE as int)
}

/// Gas expected for the sell, padded by the tier's safety buffer.
pub open spec fn spec_estimated_gas(gas: int, buffer: int) -> int {
    (gas * buffer) / (SCALE as int)
}

/// Profit left after gas and the fees already sunk into the position,
/// for a sell of `sell` at a gain of `cur - ent` per unit.
pub open spec fn spec_net_profit(sell: int, cur: int, ent: int, gas_cost: int, fees: int) -> int {
    (sell * (cur - ent)) / (SCALE as int) - gas_cost - fees
}

/// Price floor written into the sell instruction: entry marked up by the
/// fraction of the sale the sunk fees represent, `ent * (1 + fees / (sell * ent))`,
/// which reduces to `ent + fees * SCALE / sell`.
pub open spec fn spec_min_price(ent: int, fees: int, sell: int) -> int {
    ent + (fees * SCALE) / sell
}

/// The product of two values stays under the product of their bounds.
pub proof fn lemma_mul_bound(a: int, b: int, ca: int, cb: int)
    by (nonlinear_arith)
    requires
        0 <= a <= ca,
        0 <= b <= cb,
    ensures
        0 <= a * b <= ca * cb,
{
}

/// A scaled product `(a * b) / d` stays between zero and the scaled
/// product of the bounds.
pub proof fn lemma_muldiv_bound(a: int, b: int, ca: int, cb: int, d: int)
    requires
        0 <= a <= ca,
        0 <= b <= cb,
        0 < d,
    ensures
        0 <= (a * b) / d <= (ca * cb) / d,
{
    lemma_mul_bound(a, b, ca, cb);
    vstd::arithmetic::div_mod::lemma_div_is_ordered(a * b, ca * cb, d);
    vstd::arithmetic::div_mod::lemma_div_is_ordered(0, a * b, d);
    vstd::arithmetic::div_mod::lemma_div_of0(d);
}

} // verus!
