//! Per-tier profit-taking decisions.
//!
//! On a tick, every tier that has not yet fired is judged against the
//! position's current state, in ascending multiplier order. A tier is
//! skipped when its volatility-discounted trigger sits below the minimum
//! profitable ratio, when the price has not reached the trigger, or when
//! the sale would not clear the profit floor after costs; otherwise it
//! fires. A firing is only a proposal until the sale is delivered:
//! booking happens solely through the delivery-gated commit, after the
//! transaction executor reports success, and the next tier is judged
//! against the booked state.

use vstd::prelude::*;

use crate::fixed::{
    lemma_mul_bound, lemma_muldiv_bound, spec_adjusted_multiplier, spec_below_min_profit,
    spec_current_multiplier, spec_estimated_gas, spec_min_price, spec_min_profit_multiplier,
    spec_net_profit, spec_position_adjustment, spec_sell_amount, MAX_FIRE_GAS, MAX_FIRE_NET,
    MAX_GAS_BUFFER, MAX_GAS_ESTIMATE, MAX_MULTIPLIER, MAX_PRICE, MAX_SIZE, MAX_TIERS, SCALE,
};
use crate::position::TradeProfit;
use crate::tiers::{ladder_multipliers, tier_valid, ProfitTier};

verus! {

/// Why a tier did not fire on a tick. A skip is a deliberate non-action,
/// not a failure: the tier stays armed and is judged again next tick.
#[derive(Debug, Clone, Copy, PartialEq, Eq, Structural)]
pub enum SkipReason {
    /// The discounted trigger sits below the ratio at which a sale
    /// recoups its costs; selling there would lock in a net loss.
    BelowMinimumProfit,
    /// The price has not reached the discounted trigger.
    NotTriggered,
    /// The trigger was reached, but the sale would not clear the
    /// profit floor after gas and sunk fees.
    InsufficientNetProfit,
}

/// A tier firing: what is sold and what the sale books.
#[derive(Debug, Clone, Copy, PartialEq, Eq, Structural)]
pub struct TierFireEvent {
    /// Multiplier of the tier that fired.
    pub tier_multiplier: u64,
    /// Quantity sold, raw fixed-point.
    pub sell_amount: u64,
    /// Gas budgeted for the sale, including the tier's buffer.
    pub estimated_gas: u64,
    /// Profit banked by the sale after gas and sunk fees; always
    /// positive and at or above the engine's floor.
    pub net_profit: u64,
    /// Price floor written into the sell instruction.
    pub min_price: u128,
}

/// The verdict on one not-yet-fired tier during a tick.
#[derive(Debug, Clone, Copy, PartialEq, Eq, Structural)]
pub enum TierOutcome {
    /// The tier fired with the given booking.
    Fired(TierFireEvent),
    /// The tier with this multiplier was skipped for this reason.
    Skipped(u64, SkipReason),
}

/// Ghost verdict on one tier, with unbounded integers.
pub ghost enum TierDecision {
    Fire { sell: int, est: int, net: int, min_price: int },
    Skip { reason: SkipReason },
}

/// The ghost verdict for tier `t` judged against a position holding
/// `size` units bought at `ent`, marked at `cur`, with `fees` already
/// sunk, under observed volatility `v`, base gas estimate `gg` and
/// profit floor `thr`.
pub open spec fn spec_decide_tier(
    t: ProfitTier,
    size: int,
    fees: int,
    ent: int,
    cur: int,
    v: int,
    gg: int,
    thr: int,
) -> TierDecision {
    let adj = spec_adjusted_multiplier(t.multiplier as int, v, t.volatility_adjustment as int);
    if spec_below_min_profit(adj, fees + gg, size, ent) {
        TierDecision::Skip { reason: SkipReason::BelowMinimumProfit }
    } else if spec_current_multiplier(cur, ent) < adj {
        TierDecision::Skip { reason: SkipReason::NotTriggered }
    } else {
        let sell = spec_sell_amount(size, t.percentage as int, v);
        let est = spec_estimated_gas(gg, t.gas_buffer as int);
        let net = spec_net_profit(sell, cur, ent, est, fees);
        if cur >= ent && net > 0 && net >= thr {
            TierDecision::Fire { sell, est, net, min_price: spec_min_price(ent, fees, sell) }
        } else {
            TierDecision::Skip { reason: SkipReason::InsufficientNetProfit }
        }
    }
}

/// Whether the executable outcome `r` reports exactly the ghost verdict
/// `d` for a tier with multiplier `mult`.
pub open spec fn outcome_matches(r: TierOutcome, mult: u64, d: TierDecision) -> bool {
    match d {
        TierDecision::Fire { sell, est, net, min_price } => {
            &&& r is Fired
            &&& r->Fired_0.tier_multiplier == mult
            &&& r->Fired_0.sell_amount == sell
            &&& r->Fired_0.estimated_gas == est
            &&& r->Fired_0.net_profit == net
            &&& r->Fired_0.min_price == min_price
        },
        TierDecision::Skip { reason } => r == TierOutcome::Skipped(mult, reason),
    }
}

/// Ghost facts every `Fire` verdict carries: the sale fits in the
/// position, the booking fits in the per-firing bounds, and the profit
/// floor holds strictly.
pub proof fn lemma_fire_bounds(
    t: ProfitTier,
    size: int,
    fees: int,
    ent: int,
    cur: int,
    v: int,
    gg: int,
    thr: int,
)
    requires
        tier_valid(t),
        0 <= size <= MAX_SIZE,
        0 <= fees,
        1 <= ent <= MAX_PRICE,
        1 <= cur <= MAX_PRICE,
        0 <= v <= SCALE,
        0 <= gg <= MAX_GAS_ESTIMATE,
        0 <= thr,
        spec_decide_tier(t, size, fees, ent, cur, v, gg, thr) is Fire,
    ensures
        ({
            let d = spec_decide_tier(t, size, fees, ent, cur, v, gg, thr);
            &&& 1 <= d->sell <= size
            &&& 0 <= d->est <= MAX_FIRE_GAS
            &&& 0 < d->net <= MAX_FIRE_NET
            &&& d->net >= thr
            &&& cur >= ent
            &&& ent <= d->min_price
        }),
{
    let d = spec_decide_tier(t, size, fees, ent, cur, v, gg, thr);
    let sell = spec_sell_amount(size, t.percentage as int, v);
    let est = spec_estimated_gas(gg, t.gas_buffer as int);
    let net = spec_net_profit(sell, cur, ent, est, fees);
    assert(0 <= v / 2 <= SCALE / 2);
    lemma_muldiv_bound(size, t.percentage as int, size, SCALE as int, SCALE as int);
    assert((size * (SCALE as int)) / (SCALE as int) == size)
        by (nonlinear_arith)
        requires 0 <= size;
    let step1 = (size * t.percentage) / (SCALE as int);
    lemma_muldiv_bound(step1, spec_position_adjustment(v), step1, SCALE as int, SCALE as int);
    assert((step1 * (SCALE as int)) / (SCALE as int) == step1)
        by (nonlinear_arith)
        requires 0 <= step1;
    assert(0 <= sell <= size);
    lemma_muldiv_bound(gg, t.gas_buffer as int, MAX_GAS_ESTIMATE as int, MAX_GAS_BUFFER as int, SCALE as int);
    assert(0 <= est <= MAX_FIRE_GAS);
    lemma_muldiv_bound(sell, cur - ent, MAX_SIZE as int, MAX_PRICE as int, SCALE as int);
    assert(net <= MAX_FIRE_NET);
    if sell == 0 {
        assert((sell * (cur - ent)) / (SCALE as int) == 0);
        assert(net <= 0);
        assert(false);
    }
    assert(d->min_price == ent + (fees * SCALE) / sell);
    lemma_muldiv_bound(fees, SCALE as int, fees, SCALE as int, sell);
    assert(0 <= (fees * SCALE) / sell);
}

/// Judges one tier against the position's running state and reports the
/// verdict the ghost decision prescribes, field for field.
pub fn evaluate_tier(
    t: &ProfitTier,
    size: u64,
    fees: u64,
    ent: u64,
    cur: u64,
    vol: u64,
    gas_estimate: u64,
    threshold: u64,
) -> (r: TierOutcome)
    requires
        tier_valid(*t),
        size <= MAX_SIZE,
        fees <= MAX_TIERS * MAX_FIRE_GAS,
        1 <= ent <= MAX_PRICE,
        1 <= cur <= MAX_PRICE,
        vol <= SCALE,
        gas_estimate <= MAX_GAS_ESTIMATE,
    ensures
        outcome_matches(
            r,
            t.multiplier,
            spec_decide_tier(
                *t,
                size as int,
                fees as int,
                ent as int,
                cur as int,
                vol as int,
                gas_estimate as int,
                threshold as int,
            ),
        ),
{
    let ghost d = spec_decide_tier(
        *t,
        size as int,
        fees as int,
        ent as int,
        cur as int,
        vol as int,
        gas_estimate as int,
        threshold as int,
    );
    // Effective trigger once volatility has discounted the multiplier.
    proof {
        lemma_muldiv_bound(vol as int, t.volatility_adjustment as int, SCALE as int, SCALE as int, SCALE as int);
    }
    let discount: u128 = (vol as u128) * (t.volatility_adjustment as u128) / (SCALE as u128);
    proof {
        lemma_muldiv_bound(
            t.multiplier as int,
            (SCALE as u128 - discount) as int,
            MAX_MULTIPLIER as int,
            SCALE as int,
            SCALE as int,
        );
    }
    let adj: u128 = (t.multiplier as u128) * ((SCALE as u128) - discount) / (SCALE as u128);
    proof {
        assert(adj == spec_adjusted_multiplier(t.multiplier as int, vol as int, t.volatility_adjustment as int));
    }

    // Minimum profitable ratio given everything sunk plus one more gas hit.
    let costs: u64 = fees + gas_estimate;
    let below_min: bool = if size == 0 {
        true
    } else {
        proof {
            assert(1 <= (size as int) * (ent as int)) by (nonlinear_arith)
                requires 1 <= size, 1 <= ent;
            lemma_mul_bound(size as int, ent as int, MAX_SIZE as int, MAX_PRICE as int);
            lemma_mul_bound(costs as int, (SCALE as int) * (SCALE as int), (MAX_TIERS * MAX_FIRE_GAS + MAX_GAS_ESTIMATE) as int, (SCALE as int) * (SCALE as int));
        }
        let notional: u128 = (size as u128) * (ent as u128);
        let scaled_costs: u128 = (costs as u128) * (SCALE as u128) * (SCALE as u128);
        let min_mult: u128 = (SCALE as u128) + scaled_costs / notional;
        proof {
            assert((costs as int) * (SCALE as int) * (SCALE as int) == (costs as int) * ((SCALE as int) * (SCALE as int)))
                by (nonlinear_arith);
            assert(min_mult == spec_min_profit_multiplier(costs as int, size as int, ent as int));
        }
        adj < min_mult
    };
    if below_min {
        return TierOutcome::Skipped(t.multiplier, SkipReason::BelowMinimumProfit);
    }

    // Has the price reached the discounted trigger?
    proof {
        lemma_mul_bound(cur as int, SCALE as int, MAX_PRICE as int, SCALE as int);
    }
    let current_mult: u128 = (cur as u128) * (SCALE as u128) / (ent as u128);
    if current_mult < adj {
        return TierOutcome::Skipped(t.multiplier, SkipReason::NotTriggered);
    }

    // Size of the sale, shrunk into volatile markets.
    proof {
        lemma_muldiv_bound(size as int, t.percentage as int, size as int, SCALE as int, SCALE as int);
        assert(((size as int) * (SCALE as int)) / (SCALE as int) == size)
            by (nonlinear_arith)
            requires 0 <= size;
    }
    let step1: u128 = (size as u128) * (t.percentage as u128) / (SCALE as u128);
    proof {
        lemma_muldiv_bound(step1 as int, spec_position_adjustment(vol as int), step1 as int, SCALE as int, SCALE as int);
        assert(((step1 as int) * (SCALE as int)) / (SCALE as int) == step1)
            by (nonlinear_arith)
            requires 0 <= step1;
    }
    let sell: u128 = step1 * ((SCALE as u128) - (vol as u128) / 2) / (SCALE as u128);
    proof {
        assert(sell == spec_sell_amount(size as int, t.percentage as int, vol as int));
        assert(sell <= size);
    }

    // Gas budget for this sale, with the tier's safety buffer.
    proof {
        lemma_muldiv_bound(gas_estimate as int, t.gas_buffer as int, MAX_GAS_ESTIMATE as int, MAX_GAS_BUFFER as int, SCALE as int);
    }
    let est: u128 = (gas_estimate as u128) * (t.gas_buffer as u128) / (SCALE as u128);

    // Net profit after gas and sunk fees; a mark below entry can only lose.
    if cur < ent {
        return TierOutcome::Skipped(t.multiplier, SkipReason::InsufficientNetProfit);
    }
    proof {
        lemma_muldiv_bound(sell as int, (cur - ent) as int, MAX_SIZE as int, MAX_PRICE as int, SCALE as int);
    }
    let gross: u128 = sell * ((cur - ent) as u128) / (SCALE as u128);
    let net: i128 = (gross as i128) - (est as i128) - (fees as i128);
    proof {
        assert(net == spec_net_profit(sell as int, cur as int, ent as int, est as int, fees as int));
    }
    if net > 0 && net >= (threshold as i128) {
        proof {
            if sell == 0 {
                assert((sell as int) * ((cur - ent) as int) == 0);
                assert(gross == 0);
                assert(false);
            }
            lemma_muldiv_bound(fees as int, SCALE as int, (MAX_TIERS * MAX_FIRE_GAS) as int, SCALE as int, sell as int);
        }
        let min_price: u128 = (ent as u128) + (fees as u128) * (SCALE as u128) / sell;
        TierOutcome::Fired(
            TierFireEvent {
                tier_multiplier: t.multiplier,
                sell_amount: sell as u64,
                estimated_gas: est as u64,
                net_profit: net as u64,
                min_price,
            },
        )
    } else {
        TierOutcome::Skipped(t.multiplier, SkipReason::InsufficientNetProfit)
    }
}

/// The slice of a position's state that a tick reads and writes.
pub ghost struct TickState {
    pub size: int,
    pub fees: int,
    pub realized: int,
    pub hit: Seq<u64>,
}

/// The tick-relevant state of a position.
pub open spec fn st_of(t: TradeProfit) -> TickState {
    TickState {
        size: t.position_size as int,
        fees: t.gas_fees as int,
        realized: t.realized_profits as int,
        hit: t.profit_tiers_hit@,
    }
}

/// Booking a firing against the state: the sale leaves the position,
/// the gas is sunk, the profit is banked, the tier is retired.
pub open spec fn spec_fire_step(st: TickState, mult: u64, d: TierDecision) -> TickState {
    TickState {
        size: st.size - d->sell,
        fees: st.fees + d->est,
        realized: st.realized + d->net,
        hit: st.hit.push(mult),
    }
}

/// State after judging one tier: changed only by a firing.
pub open spec fn spec_step(
    st: TickState,
    t: ProfitTier,
    ent: int,
    cur: int,
    v: int,
    gg: int,
    thr: int,
) -> TickState {
    let d = spec_decide_tier(t, st.size, st.fees, ent, cur, v, gg, thr);
    if d is Fire {
        spec_fire_step(st, t.multiplier, d)
    } else {
        st
    }
}

/// A completed tick over a ladder: every tier that has not yet fired
/// is judged in ladder order against the running state, with each
/// firing booked before the next tier is judged — the state a position
/// reaches once every proposed firing has been delivered and committed
/// in turn. Yields the judged tiers with their verdicts, and the final
/// state.
pub open spec fn spec_tick(
    st: TickState,
    tiers: Seq<ProfitTier>,
    ent: int,
    cur: int,
    v: int,
    gg: int,
    thr: int,
) -> (Seq<(ProfitTier, TierDecision)>, TickState)
    decreases tiers.len(),
{
    if tiers.len() == 0 {
        (Seq::empty(), st)
    } else {
        let t = tiers[0];
        if st.hit.contains(t.multiplier) {
            spec_tick(st, tiers.drop_first(), ent, cur, v, gg, thr)
        } else {
            let d = spec_decide_tier(t, st.size, st.fees, ent, cur, v, gg, thr);
            let st2 = spec_step(st, t, ent, cur, v, gg, thr);
            let rest = spec_tick(st2, tiers.drop_first(), ent, cur, v, gg, thr);
            (seq![(t, d)] + rest.0, rest.1)
        }
    }
}

/// Whether the executable outcomes report exactly the ghost verdicts,
/// tier by tier.
pub open spec fn outcomes_match(v: Seq<TierOutcome>, m: Seq<(ProfitTier, TierDecision)>) -> bool {
    &&& v.len() == m.len()
    &&& forall|i: int|
        0 <= i < m.len() ==> outcome_matches(#[trigger] v[i], m[i].0.multiplier, m[i].1)
}

/// Whether `x` occurs in the vector.
pub fn vec_contains_u64(v: &Vec<u64>, x: u64) -> (b: bool)
    ensures
        b == v@.contains(x),
{
    let mut i: usize = 0;
    while i < v.len()
        invariant
            0 <= i <= v@.len(),
            forall|k: int| 0 <= k < i ==> v@[k] != x,
        decreases v@.len() - i,
    {
        if v[i] == x {
            return true;
        }
        i = i + 1;
    }
    false
}

/// Books a confirmed firing against the position: retires the tier,
/// removes the sold quantity, sinks the budgeted gas and banks the net
/// profit. Everything else is untouched. Intended to be called only
/// once the sale has actually been delivered.
pub fn commit_fire(trade: &mut TradeProfit, ev: &TierFireEvent)
    requires
        ev.sell_amount <= old(trade).position_size,
        ev.estimated_gas <= MAX_FIRE_GAS,
        0 < ev.net_profit <= MAX_FIRE_NET,
        old(trade).gas_fees <= MAX_TIERS * MAX_FIRE_GAS,
        old(trade).realized_profits <= MAX_TIERS * MAX_FIRE_NET,
        !old(trade).profit_tiers_hit@.contains(ev.tier_multiplier),
    ensures
        final(trade).position_size == old(trade).position_size - ev.sell_amount,
        final(trade).gas_fees == old(trade).gas_fees + ev.estimated_gas,
        final(trade).realized_profits == old(trade).realized_profits + ev.net_profit,
        final(trade).profit_tiers_hit@ == old(trade).profit_tiers_hit@.push(ev.tier_multiplier),
        final(trade).trade_id == old(trade).trade_id,
        final(trade).token_address == old(trade).token_address,
        final(trade).entry_price == old(trade).entry_price,
        final(trade).entry_time_ms == old(trade).entry_time_ms,
        final(trade).current_price == old(trade).current_price,
        final(trade).unrealized_profits == old(trade).unrealized_profits,
        forall|tiers: Seq<ProfitTier>|
            old(trade).wf(tiers) && ladder_multipliers(tiers).contains(ev.tier_multiplier)
                ==> #[trigger] final(trade).wf(tiers),
{
    trade.profit_tiers_hit.push(ev.tier_multiplier);
    trade.position_size = trade.position_size - ev.sell_amount;
    trade.gas_fees = trade.gas_fees + ev.estimated_gas;
    trade.realized_profits = trade.realized_profits + (ev.net_profit as u128);
}


/// One planning pass over a ladder: judges not-yet-fired tiers in
/// ascending order against the current state, and stops at the first
/// tier that fires. Skips leave the state untouched, so the whole pass
/// is judged at one state; the firing, if any, closes the pass and
/// awaits delivery before anything is booked.
pub open spec fn spec_plan(
    st: TickState,
    tiers: Seq<ProfitTier>,
    ent: int,
    cur: int,
    v: int,
    gg: int,
    thr: int,
) -> Seq<(ProfitTier, TierDecision)>
    decreases tiers.len(),
{
    if tiers.len() == 0 {
        Seq::empty()
    } else {
        let t = tiers[0];
        if st.hit.contains(t.multiplier) {
            spec_plan(st, tiers.drop_first(), ent, cur, v, gg, thr)
        } else {
            let d = spec_decide_tier(t, st.size, st.fees, ent, cur, v, gg, thr);
            if d is Fire {
                seq![(t, d)]
            } else {
                seq![(t, d)] + spec_plan(st, tiers.drop_first(), ent, cur, v, gg, thr)
            }
        }
    }
}

/// Whether a planning pass ends in a proposed firing.
pub open spec fn plan_has_fire(p: Seq<(ProfitTier, TierDecision)>) -> bool {
    p.len() > 0 && p.last().1 is Fire
}

/// Judging one more tier at the end of a fire-free pass appends one
/// verdict, judged at the same state.
proof fn lemma_plan_snoc(
    st: TickState,
    s: Seq<ProfitTier>,
    t: ProfitTier,
    ent: int,
    cur: int,
    v: int,
    gg: int,
    thr: int,
)
    requires
        ({
            let head = spec_plan(st, s, ent, cur, v, gg, thr);
            forall|i: int| 0 <= i < head.len() ==> !((#[trigger] head[i]).1 is Fire)
        }),
    ensures
        ({
            let head = spec_plan(st, s, ent, cur, v, gg, thr);
            let full = spec_plan(st, s.push(t), ent, cur, v, gg, thr);
            if st.hit.contains(t.multiplier) {
                full == head
            } else {
                full == head.push((t, spec_decide_tier(t, st.size, st.fees, ent, cur, v, gg, thr)))
            }
        }),
    decreases s.len(),
{
    let head = spec_plan(st, s, ent, cur, v, gg, thr);
    let full = spec_plan(st, s.push(t), ent, cur, v, gg, thr);
    if s.len() == 0 {
        assert(s =~= Seq::<ProfitTier>::empty());
        assert(s.push(t)[0] == t);
        assert(s.push(t).drop_first() =~= s);
        assert(head == Seq::<(ProfitTier, TierDecision)>::empty());
        if !st.hit.contains(t.multiplier) {
            let d = spec_decide_tier(t, st.size, st.fees, ent, cur, v, gg, thr);
            if d is Fire {
                assert(full =~= head.push((t, d)));
            } else {
                assert(full =~= head.push((t, d)));
            }
        }
    } else {
        assert(s.push(t)[0] == s[0]);
        assert(s.push(t).drop_first() =~= s.drop_first().push(t));
        if st.hit.contains(s[0].multiplier) {
            lemma_plan_snoc(st, s.drop_first(), t, ent, cur, v, gg, thr);
        } else {
            let d0 = spec_decide_tier(s[0], st.size, st.fees, ent, cur, v, gg, thr);
            if d0 is Fire {
                // The pass would already have ended in a firing.
                assert(head.last().1 is Fire);
                assert(head[0].1 is Fire);
            } else {
                let headrest = spec_plan(st, s.drop_first(), ent, cur, v, gg, thr);
                assert(head == seq![(s[0], d0)] + headrest);
                assert forall|i: int| 0 <= i < headrest.len() implies !((#[trigger] headrest[
                    i
                ]).1 is Fire) by {
                    assert(head[i + 1] == headrest[i]);
                }
                lemma_plan_snoc(st, s.drop_first(), t, ent, cur, v, gg, thr);
                let fullrest = spec_plan(st, s.drop_first().push(t), ent, cur, v, gg, thr);
                assert(full == seq![(s[0], d0)] + fullrest);
                if !st.hit.contains(t.multiplier) {
                    let d = spec_decide_tier(t, st.size, st.fees, ent, cur, v, gg, thr);
                    assert(seq![(s[0], d0)] + headrest.push((t, d)) =~= (seq![(s[0], d0)]
                        + headrest).push((t, d)));
                }
            }
        }
    }
}

/// Once a pass has ended in a firing, further tiers add nothing: the
/// pass is closed until the firing is delivered or abandoned.
proof fn lemma_plan_extend_after_fire(
    st: TickState,
    s: Seq<ProfitTier>,
    t: ProfitTier,
    ent: int,
    cur: int,
    v: int,
    gg: int,
    thr: int,
)
    requires
        plan_has_fire(spec_plan(st, s, ent, cur, v, gg, thr)),
    ensures
        spec_plan(st, s.push(t), ent, cur, v, gg, thr) == spec_plan(st, s, ent, cur, v, gg, thr),
    decreases s.len(),
{
    let head = spec_plan(st, s, ent, cur, v, gg, thr);
    let full = spec_plan(st, s.push(t), ent, cur, v, gg, thr);
    assert(s.len() > 0);
    assert(s.push(t)[0] == s[0]);
    assert(s.push(t).drop_first() =~= s.drop_first().push(t));
    if st.hit.contains(s[0].multiplier) {
        lemma_plan_extend_after_fire(st, s.drop_first(), t, ent, cur, v, gg, thr);
    } else {
        let d0 = spec_decide_tier(s[0], st.size, st.fees, ent, cur, v, gg, thr);
        if d0 is Fire {
            assert(head =~= seq![(s[0], d0)]);
            assert(full =~= seq![(s[0], d0)]);
        } else {
            let headrest = spec_plan(st, s.drop_first(), ent, cur, v, gg, thr);
            assert(head == seq![(s[0], d0)] + headrest);
            assert(head.last() == headrest.last());
            assert(headrest.len() > 0);
            lemma_plan_extend_after_fire(st, s.drop_first(), t, ent, cur, v, gg, thr);
        }
    }
}

/// A prefix that ends in a firing is the whole pass.
proof fn lemma_plan_prefix_fire(
    st: TickState,
    s: Seq<ProfitTier>,
    j: int,
    ent: int,
    cur: int,
    v: int,
    gg: int,
    thr: int,
)
    requires
        0 <= j <= s.len(),
        plan_has_fire(spec_plan(st, s.take(j), ent, cur, v, gg, thr)),
    ensures
        spec_plan(st, s, ent, cur, v, gg, thr) == spec_plan(st, s.take(j), ent, cur, v, gg, thr),
    decreases s.len() - j,
{
    if j == s.len() {
        assert(s.take(j) =~= s);
    } else {
        assert(s.take(j + 1) =~= s.take(j).push(s[j]));
        lemma_plan_extend_after_fire(st, s.take(j), s[j], ent, cur, v, gg, thr);
        lemma_plan_prefix_fire(st, s, j + 1, ent, cur, v, gg, thr);
    }
}

/// One planning pass over one position: judges its not-yet-fired tiers
/// in ascending multiplier order against the current state and reports
/// one outcome per judged tier, stopping at the first tier that fires.
/// Nothing is booked here: a proposed firing is to be submitted by the
/// host and booked through the delivery-gated commit only once the
/// executor reports success, after which a further pass judges the
/// remaining tiers against the booked state.
pub fn plan_position(
    trade: &TradeProfit,
    tiers: &Vec<ProfitTier>,
    vol: u64,
    gas_estimate: u64,
    threshold: u64,
) -> (outcomes: Vec<TierOutcome>)
    requires
        crate::tiers::ladder_valid(tiers@),
        trade.wf(tiers@),
        vol <= SCALE,
        gas_estimate <= MAX_GAS_ESTIMATE,
    ensures
        outcomes_match(
            outcomes@,
            spec_plan(
                st_of(*trade),
                tiers@,
                trade.entry_price as int,
                trade.current_price as int,
                vol as int,
                gas_estimate as int,
                threshold as int,
            ),
        ),
{
    let ghost st = st_of(*trade);
    let ghost e: int = trade.entry_price as int;
    let ghost c: int = trade.current_price as int;
    let ghost v: int = vol as int;
    let ghost gg: int = gas_estimate as int;
    let ghost thr: int = threshold as int;
    let mut outcomes: Vec<TierOutcome> = Vec::new();
    let mut i: usize = 0;
    while i < tiers.len()
        invariant
            0 <= i <= tiers@.len(),
            crate::tiers::ladder_valid(tiers@),
            trade.wf(tiers@),
            vol <= SCALE,
            gas_estimate <= MAX_GAS_ESTIMATE,
            st == st_of(*trade),
            e == trade.entry_price as int,
            c == trade.current_price as int,
            v == vol as int,
            gg == gas_estimate as int,
            thr == threshold as int,
            outcomes_match(outcomes@, spec_plan(st, tiers@.take(i as int), e, c, v, gg, thr)),
            ({
                let head = spec_plan(st, tiers@.take(i as int), e, c, v, gg, thr);
                forall|k: int| 0 <= k < head.len() ==> !((#[trigger] head[k]).1 is Fire)
            }),
        decreases tiers@.len() - i,
    {
        let t = tiers[i];
        proof {
            lemma_plan_snoc(st, tiers@.take(i as int), tiers@[i as int], e, c, v, gg, thr);
            assert(tiers@.take(i + 1) =~= tiers@.take(i as int).push(tiers@[i as int]));
        }
        if !vec_contains_u64(&trade.profit_tiers_hit, t.multiplier) {
            proof {
                crate::position::lemma_hit_count_bounded(trade.profit_tiers_hit@, tiers@);
            }
            let out = evaluate_tier(
                &t,
                trade.position_size,
                trade.gas_fees,
                trade.entry_price,
                trade.current_price,
                vol,
                gas_estimate,
                threshold,
            );
            match out {
                TierOutcome::Fired(ev) => {
                    outcomes.push(TierOutcome::Fired(ev));
                    proof {
                        lemma_plan_prefix_fire(st, tiers@, i + 1, e, c, v, gg, thr);
                    }
                    return outcomes;
                },
                TierOutcome::Skipped(m, reason) => {
                    outcomes.push(TierOutcome::Skipped(m, reason));
                },
            }
        }
        i = i + 1;
    }
    proof {
        assert(tiers@.take(tiers@.len() as int) =~= tiers@);
    }
    outcomes
}

} // verus!
