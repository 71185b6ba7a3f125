//! Laws of the tick, proved once and for all, for every position,
//! ladder and input.
//!
//! `spec_plan` is what one executable tick judges: the unfired tiers
//! in ladder order, up to and including the first proposed firing,
//! all at the current state. `spec_tick` is the completed tick: the
//! state a position reaches once every proposed firing has been
//! delivered and booked in turn. The bridge lemma ties the two: a
//! pass is exactly the completed tick's judgment sequence up to its
//! first firing, so the fold is a faithful model of the
//! judge-deliver-book loop the host drives.

use vstd::prelude::*;

use crate::evaluate::{
    lemma_fire_bounds, plan_has_fire, spec_decide_tier, spec_plan, spec_step, spec_tick,
    TickState, TierDecision,
};
use crate::fixed::{
    spec_adjusted_multiplier, spec_below_min_profit, spec_current_multiplier,
    spec_estimated_gas, spec_min_profit_multiplier, spec_net_profit, spec_position_adjustment,
    spec_sell_amount, MAX_GAS_ESTIMATE, MAX_PRICE, MAX_SIZE, SCALE,
};
use crate::tiers::{tier_valid, ProfitTier};

verus! {

/// A fired-tier list that only ever gains entries at its end.
pub open spec fn hit_extends(post: Seq<u64>, pre: Seq<u64>) -> bool {
    &&& pre.len() <= post.len()
    &&& forall|k: int| 0 <= k < pre.len() ==> post[k] == pre[k]
}

/// Bounds under which a tick state is meaningful.
pub open spec fn st_bounds(st: TickState) -> bool {
    &&& 0 <= st.size <= MAX_SIZE
    &&& 0 <= st.fees
}

/// Bounds under which the fixed per-tick inputs are meaningful.
pub open spec fn input_bounds(ent: int, cur: int, v: int, gg: int, thr: int) -> bool {
    &&& 1 <= ent <= MAX_PRICE
    &&& 1 <= cur <= MAX_PRICE
    &&& 0 <= v <= SCALE
    &&& 0 <= gg <= MAX_GAS_ESTIMATE
    &&& 0 <= thr
}

/// Every tier of a ladder is valid.
pub open spec fn tiers_valid(tiers: Seq<ProfitTier>) -> bool {
    forall|i: int| 0 <= i < tiers.len() ==> tier_valid(#[trigger] tiers[i])
}

/// A ladder's multipliers strictly ascend.
pub open spec fn tiers_ascending(tiers: Seq<ProfitTier>) -> bool {
    forall|i: int, j: int|
        0 <= i < j < tiers.len() ==> (#[trigger] tiers[i].multiplier) < (#[trigger] tiers[
            j
        ].multiplier)
}

/// A tick only hardens the state: size never grows, sunk fees and
/// banked profit never shrink, the fired-tier list only extends, and
/// the state stays within bounds.
pub proof fn lemma_tick_hardens(
    st: TickState,
    tiers: Seq<ProfitTier>,
    ent: int,
    cur: int,
    v: int,
    gg: int,
    thr: int,
)
    requires
        st_bounds(st),
        input_bounds(ent, cur, v, gg, thr),
        tiers_valid(tiers),
    ensures
        ({
            let f = spec_tick(st, tiers, ent, cur, v, gg, thr).1;
            &&& st_bounds(f)
            &&& f.size <= st.size
            &&& f.fees >= st.fees
            &&& f.realized >= st.realized
            &&& hit_extends(f.hit, st.hit)
        }),
    decreases tiers.len(),
{
    if tiers.len() > 0 {
        let t = tiers[0];
        if st.hit.contains(t.multiplier) {
            lemma_tick_hardens(st, tiers.drop_first(), ent, cur, v, gg, thr);
        } else {
            let d = spec_decide_tier(t, st.size, st.fees, ent, cur, v, gg, thr);
            let st2 = spec_step(st, t, ent, cur, v, gg, thr);
            if d is Fire {
                lemma_fire_bounds(t, st.size, st.fees, ent, cur, v, gg, thr);
            }
            lemma_tick_hardens(st2, tiers.drop_first(), ent, cur, v, gg, thr);
        }
    }
}

/// Multiplying both sides of an inequality by a non-negative factor
/// keeps the order.
proof fn lemma_mul_mono(a: int, b: int, c: int)
    by (nonlinear_arith)
    requires
        a <= b,
        0 <= c,
    ensures
        a * c <= b * c,
{
}

/// A tier that does not fire keeps not firing as the position hardens:
/// with less size to sell and more fees sunk, every firing condition
/// only gets harder to meet.
proof fn lemma_skip_stable(
    t: ProfitTier,
    size1: int,
    fees1: int,
    size2: int,
    fees2: int,
    ent: int,
    cur: int,
    v: int,
    gg: int,
    thr: int,
)
    requires
        tier_valid(t),
        0 <= size2 <= size1 <= MAX_SIZE,
        0 <= fees1 <= fees2,
        input_bounds(ent, cur, v, gg, thr),
        !(spec_decide_tier(t, size1, fees1, ent, cur, v, gg, thr) is Fire),
    ensures
        !(spec_decide_tier(t, size2, fees2, ent, cur, v, gg, thr) is Fire),
{
    let adj = spec_adjusted_multiplier(t.multiplier as int, v, t.volatility_adjustment as int);
    let ss: int = SCALE as int;
    if !spec_below_min_profit(adj, fees2 + gg, size2, ent) {
        // State 2 cleared the minimum-profit guard, so state 1 did too.
        assert(size2 != 0);
        assert(1 <= size2 * ent) by (nonlinear_arith)
            requires 1 <= size2, 1 <= ent;
        assert(size2 * ent <= size1 * ent) by (nonlinear_arith)
            requires 0 <= size2 <= size1, 0 <= ent;
        let c1 = (fees1 + gg) * ss * ss;
        let c2 = (fees2 + gg) * ss * ss;
        assert(0 <= c1 && c1 <= c2) by (nonlinear_arith)
            requires
                0 <= fees1 + gg <= fees2 + gg,
                0 <= ss,
                c1 == (fees1 + gg) * ss * ss,
                c2 == (fees2 + gg) * ss * ss,
        ;
        vstd::arithmetic::div_mod::lemma_div_is_ordered_by_denominator(
            c1,
            size2 * ent,
            size1 * ent,
        );
        vstd::arithmetic::div_mod::lemma_div_is_ordered(c1, c2, size2 * ent);
        assert(spec_min_profit_multiplier(fees1 + gg, size1, ent) <= spec_min_profit_multiplier(
            fees2 + gg,
            size2,
            ent,
        ));
        assert(!spec_below_min_profit(adj, fees1 + gg, size1, ent));
        if spec_current_multiplier(cur, ent) >= adj {
            // Both guards passed in both states, so state 1 was an
            // insufficient-profit skip; show the profit only fell.
            let sell1 = spec_sell_amount(size1, t.percentage as int, v);
            let sell2 = spec_sell_amount(size2, t.percentage as int, v);
            let est = spec_estimated_gas(gg, t.gas_buffer as int);
            let adjp = spec_position_adjustment(v);
            assert(0 <= adjp);
            lemma_mul_mono(size2, size1, t.percentage as int);
            vstd::arithmetic::div_mod::lemma_div_is_ordered(
                size2 * t.percentage,
                size1 * t.percentage,
                ss,
            );
            lemma_mul_mono((size2 * t.percentage) / ss, (size1 * t.percentage) / ss, adjp);
            vstd::arithmetic::div_mod::lemma_div_is_ordered(
                (size2 * t.percentage) / ss * adjp,
                (size1 * t.percentage) / ss * adjp,
                ss,
            );
            assert(sell2 <= sell1);
            if cur >= ent {
                lemma_mul_mono(sell2, sell1, cur - ent);
                vstd::arithmetic::div_mod::lemma_div_is_ordered(
                    sell2 * (cur - ent),
                    sell1 * (cur - ent),
                    ss,
                );
                assert(spec_net_profit(sell2, cur, ent, est, fees2) <= spec_net_profit(
                    sell1,
                    cur,
                    ent,
                    est,
                    fees1,
                ));
            }
        }
    }
}

/// After a tick, every tier still unfired at its end would be skipped
/// again if judged at the final state: the tick left nothing on the
/// table.
proof fn lemma_tick_post_stable(
    st: TickState,
    tiers: Seq<ProfitTier>,
    ent: int,
    cur: int,
    v: int,
    gg: int,
    thr: int,
)
    requires
        st_bounds(st),
        input_bounds(ent, cur, v, gg, thr),
        tiers_valid(tiers),
    ensures
        ({
            let f = spec_tick(st, tiers, ent, cur, v, gg, thr).1;
            forall|k: int|
                0 <= k < tiers.len() && !f.hit.contains((#[trigger] tiers[k]).multiplier)
                    ==> !(spec_decide_tier(tiers[k], f.size, f.fees, ent, cur, v, gg, thr)
                    is Fire)
        }),
    decreases tiers.len(),
{
    if tiers.len() > 0 {
        let t = tiers[0];
        let f = spec_tick(st, tiers, ent, cur, v, gg, thr).1;
        if st.hit.contains(t.multiplier) {
            lemma_tick_post_stable(st, tiers.drop_first(), ent, cur, v, gg, thr);
            lemma_tick_hardens(st, tiers.drop_first(), ent, cur, v, gg, thr);
            assert forall|k: int|
                0 <= k < tiers.len() && !f.hit.contains((#[trigger] tiers[k]).multiplier)
                    implies !(spec_decide_tier(tiers[k], f.size, f.fees, ent, cur, v, gg, thr)
                is Fire) by {
                if k == 0 {
                    // The head is retired at the start and stays so.
                    let j = choose|j: int| 0 <= j < st.hit.len() && st.hit[j] == t.multiplier;
                    assert(f.hit[j] == t.multiplier);
                    assert(f.hit.contains(t.multiplier));
                } else {
                    assert(tiers.drop_first()[k - 1] == tiers[k]);
                }
            }
        } else {
            let d = spec_decide_tier(t, st.size, st.fees, ent, cur, v, gg, thr);
            let st2 = spec_step(st, t, ent, cur, v, gg, thr);
            if d is Fire {
                lemma_fire_bounds(t, st.size, st.fees, ent, cur, v, gg, thr);
            }
            lemma_tick_post_stable(st2, tiers.drop_first(), ent, cur, v, gg, thr);
            lemma_tick_hardens(st2, tiers.drop_first(), ent, cur, v, gg, thr);
            assert forall|k: int|
                0 <= k < tiers.len() && !f.hit.contains((#[trigger] tiers[k]).multiplier)
                    implies !(spec_decide_tier(tiers[k], f.size, f.fees, ent, cur, v, gg, thr)
                is Fire) by {
                if k == 0 {
                    if d is Fire {
                        // A fired head is retired in the stepped state
                        // and stays so in the final one.
                        let h2 = st2.hit;
                        assert(h2[h2.len() - 1] == t.multiplier);
                        assert(f.hit[h2.len() - 1] == t.multiplier);
                        assert(f.hit.contains(t.multiplier));
                    } else {
                        lemma_skip_stable(
                            t,
                            st.size,
                            st.fees,
                            f.size,
                            f.fees,
                            ent,
                            cur,
                            v,
                            gg,
                            thr,
                        );
                    }
                } else {
                    assert(tiers.drop_first()[k - 1] == tiers[k]);
                }
            }
        }
    }
}

/// A tick started in a state where every unfired tier skips emits no
/// firings at all.
proof fn lemma_tick_no_fires(
    st: TickState,
    tiers: Seq<ProfitTier>,
    ent: int,
    cur: int,
    v: int,
    gg: int,
    thr: int,
)
    requires
        forall|k: int|
            0 <= k < tiers.len() && !st.hit.contains((#[trigger] tiers[k]).multiplier) ==> !(
            spec_decide_tier(tiers[k], st.size, st.fees, ent, cur, v, gg, thr) is Fire),
    ensures
        ({
            let r = spec_tick(st, tiers, ent, cur, v, gg, thr).0;
            forall|i: int| 0 <= i < r.len() ==> !((#[trigger] r[i]).1 is Fire)
        }),
    decreases tiers.len(),
{
    if tiers.len() > 0 {
        let t = tiers[0];
        assert(forall|k: int|
            0 <= k < tiers.drop_first().len() ==> (#[trigger] tiers.drop_first()[k]) == tiers[
                k + 1
            ]);
        if st.hit.contains(t.multiplier) {
            lemma_tick_no_fires(st, tiers.drop_first(), ent, cur, v, gg, thr);
        } else {
            let d = spec_decide_tier(t, st.size, st.fees, ent, cur, v, gg, thr);
            assert(!(d is Fire));
            lemma_tick_no_fires(st, tiers.drop_first(), ent, cur, v, gg, thr);
            let rest = spec_tick(st, tiers.drop_first(), ent, cur, v, gg, thr).0;
            let r = spec_tick(st, tiers, ent, cur, v, gg, thr).0;
            assert(r == seq![(t, d)] + rest);
            assert forall|i: int| 0 <= i < r.len() implies !((#[trigger] r[i]).1 is Fire) by {
                if i > 0 {
                    assert(r[i] == rest[i - 1]);
                }
            }
        }
    }
}

/// Idempotence of the tick: a second tick under unchanged price,
/// volatility, gas estimate and profit floor fires nothing. Every tier
/// that stayed unfired was skipped because its conditions failed, and
/// the first tick only hardened them.
pub proof fn lemma_tick_idempotent(
    st: TickState,
    tiers: Seq<ProfitTier>,
    ent: int,
    cur: int,
    v: int,
    gg: int,
    thr: int,
)
    requires
        st_bounds(st),
        input_bounds(ent, cur, v, gg, thr),
        tiers_valid(tiers),
    ensures
        ({
            let f = spec_tick(st, tiers, ent, cur, v, gg, thr).1;
            let second = spec_tick(f, tiers, ent, cur, v, gg, thr).0;
            forall|i: int| 0 <= i < second.len() ==> !((#[trigger] second[i]).1 is Fire)
        }),
{
    lemma_tick_post_stable(st, tiers, ent, cur, v, gg, thr);
    let f = spec_tick(st, tiers, ent, cur, v, gg, thr).1;
    lemma_tick_no_fires(f, tiers, ent, cur, v, gg, thr);
}

/// The profit floor: every firing a tick emits carries a net profit
/// that is strictly positive and at or above the configured floor.
pub proof fn lemma_profit_floor(
    st: TickState,
    tiers: Seq<ProfitTier>,
    ent: int,
    cur: int,
    v: int,
    gg: int,
    thr: int,
)
    ensures
        ({
            let r = spec_tick(st, tiers, ent, cur, v, gg, thr).0;
            forall|i: int|
                0 <= i < r.len() && (#[trigger] r[i]).1 is Fire ==> r[i].1->net > 0 && r[
                    i
                ].1->net >= thr
        }),
    decreases tiers.len(),
{
    if tiers.len() > 0 {
        let t = tiers[0];
        if st.hit.contains(t.multiplier) {
            lemma_profit_floor(st, tiers.drop_first(), ent, cur, v, gg, thr);
        } else {
            let d = spec_decide_tier(t, st.size, st.fees, ent, cur, v, gg, thr);
            let st2 = spec_step(st, t, ent, cur, v, gg, thr);
            lemma_profit_floor(st2, tiers.drop_first(), ent, cur, v, gg, thr);
            let rest = spec_tick(st2, tiers.drop_first(), ent, cur, v, gg, thr).0;
            let r = spec_tick(st, tiers, ent, cur, v, gg, thr).0;
            assert(r == seq![(t, d)] + rest);
            assert forall|i: int|
                0 <= i < r.len() && (#[trigger] r[i]).1 is Fire implies r[i].1->net > 0 && r[
                i
            ].1->net >= thr by {
                if i > 0 {
                    assert(r[i] == rest[i - 1]);
                }
            }
        }
    }
}

/// Every verdict a tick emits concerns a tier of the ladder.
proof fn lemma_tick_members(
    st: TickState,
    tiers: Seq<ProfitTier>,
    ent: int,
    cur: int,
    v: int,
    gg: int,
    thr: int,
)
    ensures
        ({
            let r = spec_tick(st, tiers, ent, cur, v, gg, thr).0;
            forall|i: int|
                0 <= i < r.len() ==> exists|k: int|
                    0 <= k < tiers.len() && (#[trigger] r[i]).0 == tiers[k]
        }),
    decreases tiers.len(),
{
    if tiers.len() > 0 {
        let t = tiers[0];
        assert(forall|k: int|
            0 <= k < tiers.drop_first().len() ==> (#[trigger] tiers.drop_first()[k]) == tiers[
                k + 1
            ]);
        if st.hit.contains(t.multiplier) {
            lemma_tick_members(st, tiers.drop_first(), ent, cur, v, gg, thr);
            let rest = spec_tick(st, tiers.drop_first(), ent, cur, v, gg, thr).0;
            assert forall|i: int|
                0 <= i < rest.len() implies exists|k: int|
                0 <= k < tiers.len() && (#[trigger] rest[i]).0 == tiers[k] by {
                let k0 = choose|k0: int|
                    0 <= k0 < tiers.drop_first().len() && rest[i].0 == tiers.drop_first()[k0];
                assert(rest[i].0 == tiers[k0 + 1]);
            }
        } else {
            let d = spec_decide_tier(t, st.size, st.fees, ent, cur, v, gg, thr);
            let st2 = spec_step(st, t, ent, cur, v, gg, thr);
            lemma_tick_members(st2, tiers.drop_first(), ent, cur, v, gg, thr);
            let rest = spec_tick(st2, tiers.drop_first(), ent, cur, v, gg, thr).0;
            let r = spec_tick(st, tiers, ent, cur, v, gg, thr).0;
            assert(r == seq![(t, d)] + rest);
            assert forall|i: int|
                0 <= i < r.len() implies exists|k: int|
                0 <= k < tiers.len() && (#[trigger] r[i]).0 == tiers[k] by {
                if i == 0 {
                    assert(r[0].0 == tiers[0]);
                } else {
                    assert(r[i] == rest[i - 1]);
                    let k0 = choose|k0: int|
                        0 <= k0 < tiers.drop_first().len() && rest[i - 1].0 == tiers.drop_first()[
                            k0
                        ];
                    assert(r[i].0 == tiers[k0 + 1]);
                }
            }
        }
    }
}

/// A tick judges only tiers unfired at its start, retires every tier
/// it fires, and only extends the fired-tier list.
proof fn lemma_tick_fresh(
    st: TickState,
    tiers: Seq<ProfitTier>,
    ent: int,
    cur: int,
    v: int,
    gg: int,
    thr: int,
)
    ensures
        ({
            let r = spec_tick(st, tiers, ent, cur, v, gg, thr);
            &&& forall|i: int|
                0 <= i < r.0.len() ==> !st.hit.contains((#[trigger] r.0[i]).0.multiplier)
            &&& forall|i: int|
                0 <= i < r.0.len() && (#[trigger] r.0[i]).1 is Fire ==> r.1.hit.contains(
                    r.0[i].0.multiplier,
                )
            &&& hit_extends(r.1.hit, st.hit)
        }),
    decreases tiers.len(),
{
    if tiers.len() > 0 {
        let t = tiers[0];
        if st.hit.contains(t.multiplier) {
            lemma_tick_fresh(st, tiers.drop_first(), ent, cur, v, gg, thr);
        } else {
            let d = spec_decide_tier(t, st.size, st.fees, ent, cur, v, gg, thr);
            let st2 = spec_step(st, t, ent, cur, v, gg, thr);
            lemma_tick_fresh(st2, tiers.drop_first(), ent, cur, v, gg, thr);
            let rest = spec_tick(st2, tiers.drop_first(), ent, cur, v, gg, thr);
            let r = spec_tick(st, tiers, ent, cur, v, gg, thr);
            assert(r.0 == seq![(t, d)] + rest.0);
            // Anything retired at the start is still retired after the
            // head's step.
            assert forall|m: u64| st.hit.contains(m) implies st2.hit.contains(m) by {
                let j = choose|j: int| 0 <= j < st.hit.len() && st.hit[j] == m;
                assert(st2.hit[j] == m);
            }
            assert forall|i: int|
                0 <= i < r.0.len() implies !st.hit.contains(
                (#[trigger] r.0[i]).0.multiplier,
            ) by {
                if i > 0 {
                    assert(r.0[i] == rest.0[i - 1]);
                    assert(!st2.hit.contains(rest.0[i - 1].0.multiplier));
                }
            }
            if d is Fire {
                assert(st2.hit[st.hit.len() as int] == t.multiplier);
                assert(st2.hit.contains(t.multiplier));
                let j = choose|j: int| 0 <= j < st2.hit.len() && st2.hit[j] == t.multiplier;
                assert(r.1.hit[j] == t.multiplier);
                assert(r.1.hit.contains(t.multiplier));
            }
            assert forall|i: int|
                0 <= i < r.0.len() && (#[trigger] r.0[i]).1 is Fire implies r.1.hit.contains(
                r.0[i].0.multiplier,
            ) by {
                if i > 0 {
                    assert(r.0[i] == rest.0[i - 1]);
                }
            }
        }
    }
}

/// A tick's verdicts are in strictly ascending multiplier order, so no
/// tier is judged twice in one tick.
proof fn lemma_tick_outcomes_ascending(
    st: TickState,
    tiers: Seq<ProfitTier>,
    ent: int,
    cur: int,
    v: int,
    gg: int,
    thr: int,
)
    requires
        tiers_ascending(tiers),
    ensures
        ({
            let r = spec_tick(st, tiers, ent, cur, v, gg, thr).0;
            forall|i: int, j: int|
                0 <= i < j < r.len() ==> (#[trigger] r[i]).0.multiplier < (#[trigger] r[
                    j
                ]).0.multiplier
        }),
    decreases tiers.len(),
{
    if tiers.len() > 0 {
        let t = tiers[0];
        assert(forall|k: int|
            0 <= k < tiers.drop_first().len() ==> (#[trigger] tiers.drop_first()[k]) == tiers[
                k + 1
            ]);
        if st.hit.contains(t.multiplier) {
            lemma_tick_outcomes_ascending(st, tiers.drop_first(), ent, cur, v, gg, thr);
            assert(spec_tick(st, tiers, ent, cur, v, gg, thr) == spec_tick(
                st,
                tiers.drop_first(),
                ent,
                cur,
                v,
                gg,
                thr,
            ));
        } else {
            let d = spec_decide_tier(t, st.size, st.fees, ent, cur, v, gg, thr);
            let st2 = spec_step(st, t, ent, cur, v, gg, thr);
            lemma_tick_outcomes_ascending(st2, tiers.drop_first(), ent, cur, v, gg, thr);
            lemma_tick_members(st2, tiers.drop_first(), ent, cur, v, gg, thr);
            let rest = spec_tick(st2, tiers.drop_first(), ent, cur, v, gg, thr).0;
            let r = spec_tick(st, tiers, ent, cur, v, gg, thr).0;
            assert(r == seq![(t, d)] + rest);
            assert forall|i: int, j: int|
                0 <= i < j < r.len() implies (#[trigger] r[i]).0.multiplier < (#[trigger] r[
                j
            ]).0.multiplier by {
                if i == 0 {
                    assert(r[j] == rest[j - 1]);
                    let k0 = choose|k0: int|
                        0 <= k0 < tiers.drop_first().len() && rest[j - 1].0
                            == tiers.drop_first()[k0];
                    assert(r[j].0 == tiers[k0 + 1]);
                    assert(tiers[0].multiplier < tiers[k0 + 1].multiplier);
                } else {
                    assert(r[i] == rest[i - 1]);
                    assert(r[j] == rest[j - 1]);
                }
            }
        }
    }
}

/// At-most-once firing: within one tick every judged tier is judged
/// once (the verdicts ascend strictly in multiplier), only tiers
/// unfired at the start are judged at all, every fired tier ends up
/// retired, and retirement is never undone. Together these give each
/// (position, tier) pair at most one firing over the position's life:
/// a fired tier enters the fired list, the list only grows, and a
/// listed tier is never judged again.
pub proof fn lemma_at_most_once_firing(
    st: TickState,
    tiers: Seq<ProfitTier>,
    ent: int,
    cur: int,
    v: int,
    gg: int,
    thr: int,
)
    requires
        tiers_ascending(tiers),
    ensures
        ({
            let r = spec_tick(st, tiers, ent, cur, v, gg, thr);
            &&& forall|i: int, j: int|
                0 <= i < j < r.0.len() ==> (#[trigger] r.0[i]).0.multiplier < (#[trigger] r.0[
                    j
                ]).0.multiplier
            &&& forall|i: int|
                0 <= i < r.0.len() ==> !st.hit.contains((#[trigger] r.0[i]).0.multiplier)
            &&& forall|i: int|
                0 <= i < r.0.len() && (#[trigger] r.0[i]).1 is Fire ==> r.1.hit.contains(
                    r.0[i].0.multiplier,
                )
            &&& hit_extends(r.1.hit, st.hit)
        }),
{
    lemma_tick_fresh(st, tiers, ent, cur, v, gg, thr);
    lemma_tick_outcomes_ascending(st, tiers, ent, cur, v, gg, thr);
}

/// Ordering of a tick: every tier unfired at the start is judged, and
/// the verdicts ascend, so when a tier fires, every lower unfired tier
/// has already been judged — fired or skipped with a reason — earlier
/// in the same tick.
pub proof fn lemma_tick_ordering(
    st: TickState,
    tiers: Seq<ProfitTier>,
    ent: int,
    cur: int,
    v: int,
    gg: int,
    thr: int,
)
    requires
        tiers_ascending(tiers),
    ensures
        ({
            let r = spec_tick(st, tiers, ent, cur, v, gg, thr).0;
            forall|k: int|
                0 <= k < tiers.len() && !st.hit.contains((#[trigger] tiers[k]).multiplier)
                    ==> exists|i: int| 0 <= i < r.len() && (#[trigger] r[i]).0 == tiers[k]
        }),
    decreases tiers.len(),
{
    let r = spec_tick(st, tiers, ent, cur, v, gg, thr).0;
    if tiers.len() > 0 {
        let t = tiers[0];
        assert(forall|k: int|
            0 <= k < tiers.drop_first().len() ==> (#[trigger] tiers.drop_first()[k]) == tiers[
                k + 1
            ]);
        if st.hit.contains(t.multiplier) {
            lemma_tick_ordering(st, tiers.drop_first(), ent, cur, v, gg, thr);
            let rest = spec_tick(st, tiers.drop_first(), ent, cur, v, gg, thr).0;
            assert forall|k: int|
                0 <= k < tiers.len() && !st.hit.contains((#[trigger] tiers[k]).multiplier)
                    implies exists|i: int| 0 <= i < r.len() && (#[trigger] r[i]).0 == tiers[
                k
            ] by {
                assert(k > 0);
                assert(!st.hit.contains(tiers.drop_first()[k - 1].multiplier));
                let i0 = choose|i0: int|
                    0 <= i0 < rest.len() && rest[i0].0 == tiers.drop_first()[k - 1];
                assert(r[i0].0 == tiers[k]);
            }
        } else {
            let d = spec_decide_tier(t, st.size, st.fees, ent, cur, v, gg, thr);
            let st2 = spec_step(st, t, ent, cur, v, gg, thr);
            lemma_tick_ordering(st2, tiers.drop_first(), ent, cur, v, gg, thr);
            let rest = spec_tick(st2, tiers.drop_first(), ent, cur, v, gg, thr).0;
            assert(r == seq![(t, d)] + rest);
            assert forall|k: int|
                0 <= k < tiers.len() && !st.hit.contains((#[trigger] tiers[k]).multiplier)
                    implies exists|i: int| 0 <= i < r.len() && (#[trigger] r[i]).0 == tiers[
                k
            ] by {
                if k == 0 {
                    assert(r[0].0 == tiers[0]);
                } else {
                    // The head's step can only have retired the head's
                    // own multiplier, which is below this tier's.
                    assert(tiers[0].multiplier < tiers[k].multiplier);
                    assert(!st2.hit.contains(tiers[k].multiplier)) by {
                        if st2.hit.contains(tiers[k].multiplier) {
                            let j = choose|j: int|
                                0 <= j < st2.hit.len() && st2.hit[j] == tiers[k].multiplier;
                            if d is Fire {
                                if j < st.hit.len() {
                                    assert(st.hit[j] == tiers[k].multiplier);
                                } else {
                                    assert(st2.hit[j] == tiers[0].multiplier);
                                }
                            } else {
                                assert(st.hit[j] == tiers[k].multiplier);
                            }
                        }
                    }
                    assert(!st2.hit.contains(tiers.drop_first()[k - 1].multiplier));
                    let i0 = choose|i0: int|
                        0 <= i0 < rest.len() && rest[i0].0 == tiers.drop_first()[k - 1];
                    assert(r[i0 + 1] == rest[i0]);
                    assert(r[i0 + 1].0 == tiers[k]);
                }
            }
        }
    }
}

/// The profit floor at the judging surface: every firing a pass
/// proposes carries a net profit that is strictly positive and at or
/// above the configured floor. Only proposed firings are ever
/// submitted and booked, so every booked firing met the floor at the
/// moment it was judged.
pub proof fn lemma_plan_profit_floor(
    st: TickState,
    tiers: Seq<ProfitTier>,
    ent: int,
    cur: int,
    v: int,
    gg: int,
    thr: int,
)
    ensures
        ({
            let p = spec_plan(st, tiers, ent, cur, v, gg, thr);
            forall|i: int|
                0 <= i < p.len() && (#[trigger] p[i]).1 is Fire ==> p[i].1->net > 0 && p[
                    i
                ].1->net >= thr
        }),
    decreases tiers.len(),
{
    if tiers.len() > 0 {
        let t = tiers[0];
        if st.hit.contains(t.multiplier) {
            lemma_plan_profit_floor(st, tiers.drop_first(), ent, cur, v, gg, thr);
        } else {
            let d = spec_decide_tier(t, st.size, st.fees, ent, cur, v, gg, thr);
            let p = spec_plan(st, tiers, ent, cur, v, gg, thr);
            if !(d is Fire) {
                lemma_plan_profit_floor(st, tiers.drop_first(), ent, cur, v, gg, thr);
                let rest = spec_plan(st, tiers.drop_first(), ent, cur, v, gg, thr);
                assert(p == seq![(t, d)] + rest);
                assert forall|i: int|
                    0 <= i < p.len() && (#[trigger] p[i]).1 is Fire implies p[i].1->net > 0
                    && p[i].1->net >= thr by {
                    if i > 0 {
                        assert(p[i] == rest[i - 1]);
                    }
                }
            }
        }
    }
}

/// A pass proposes at most one firing, and only as its last verdict.
proof fn lemma_plan_fire_last(
    st: TickState,
    tiers: Seq<ProfitTier>,
    ent: int,
    cur: int,
    v: int,
    gg: int,
    thr: int,
)
    ensures
        ({
            let p = spec_plan(st, tiers, ent, cur, v, gg, thr);
            forall|i: int| 0 <= i < p.len() - 1 ==> !((#[trigger] p[i]).1 is Fire)
        }),
    decreases tiers.len(),
{
    if tiers.len() > 0 {
        let t = tiers[0];
        if st.hit.contains(t.multiplier) {
            lemma_plan_fire_last(st, tiers.drop_first(), ent, cur, v, gg, thr);
        } else {
            let d = spec_decide_tier(t, st.size, st.fees, ent, cur, v, gg, thr);
            if !(d is Fire) {
                lemma_plan_fire_last(st, tiers.drop_first(), ent, cur, v, gg, thr);
                let rest = spec_plan(st, tiers.drop_first(), ent, cur, v, gg, thr);
                let p = spec_plan(st, tiers, ent, cur, v, gg, thr);
                assert(p == seq![(t, d)] + rest);
                assert forall|i: int|
                    0 <= i < p.len() - 1 implies !((#[trigger] p[i]).1 is Fire) by {
                    if i > 0 {
                        assert(p[i] == rest[i - 1]);
                    }
                }
            }
        }
    }
}

/// The bridge between one pass and the completed tick: the pass is
/// exactly the completed tick's judgment sequence up to and including
/// its first firing, judged at the same state; a pass with no firing
/// is the whole of it, and then the completed tick changes nothing.
pub proof fn lemma_plan_is_tick_prefix(
    st: TickState,
    tiers: Seq<ProfitTier>,
    ent: int,
    cur: int,
    v: int,
    gg: int,
    thr: int,
)
    ensures
        ({
            let p = spec_plan(st, tiers, ent, cur, v, gg, thr);
            let r = spec_tick(st, tiers, ent, cur, v, gg, thr);
            &&& p.len() <= r.0.len()
            &&& forall|i: int| 0 <= i < p.len() ==> r.0[i] == #[trigger] p[i]
            &&& !plan_has_fire(p) ==> r.0 == p && r.1 == st
        }),
    decreases tiers.len(),
{
    if tiers.len() > 0 {
        let t = tiers[0];
        if st.hit.contains(t.multiplier) {
            lemma_plan_is_tick_prefix(st, tiers.drop_first(), ent, cur, v, gg, thr);
        } else {
            let d = spec_decide_tier(t, st.size, st.fees, ent, cur, v, gg, thr);
            let p = spec_plan(st, tiers, ent, cur, v, gg, thr);
            let r = spec_tick(st, tiers, ent, cur, v, gg, thr);
            let st2 = spec_step(st, t, ent, cur, v, gg, thr);
            let restr = spec_tick(st2, tiers.drop_first(), ent, cur, v, gg, thr);
            assert(r.0 == seq![(t, d)] + restr.0);
            if d is Fire {
                assert(p == seq![(t, d)]);
                assert(r.0[0] == p[0]);
            } else {
                assert(st2 == st);
                lemma_plan_is_tick_prefix(st, tiers.drop_first(), ent, cur, v, gg, thr);
                let restp = spec_plan(st, tiers.drop_first(), ent, cur, v, gg, thr);
                assert(p == seq![(t, d)] + restp);
                assert forall|i: int| 0 <= i < p.len() implies r.0[i] == #[trigger] p[i] by {
                    if i > 0 {
                        assert(p[i] == restp[i - 1]);
                        assert(r.0[i] == restr.0[i - 1]);
                    }
                }
                if !plan_has_fire(p) {
                    if restp.len() > 0 {
                        assert(p.last() == restp.last());
                        assert(!plan_has_fire(restp));
                    }
                    assert(r.0 =~= p);
                }
            }
        }
    }
}

/// A state where every unfired tier skips yields a pass with no
/// proposed firing.
proof fn lemma_plan_no_fires(
    st: TickState,
    tiers: Seq<ProfitTier>,
    ent: int,
    cur: int,
    v: int,
    gg: int,
    thr: int,
)
    requires
        forall|k: int|
            0 <= k < tiers.len() && !st.hit.contains((#[trigger] tiers[k]).multiplier) ==> !(
            spec_decide_tier(tiers[k], st.size, st.fees, ent, cur, v, gg, thr) is Fire),
    ensures
        ({
            let p = spec_plan(st, tiers, ent, cur, v, gg, thr);
            forall|i: int| 0 <= i < p.len() ==> !((#[trigger] p[i]).1 is Fire)
        }),
    decreases tiers.len(),
{
    if tiers.len() > 0 {
        let t = tiers[0];
        assert(forall|k: int|
            0 <= k < tiers.drop_first().len() ==> (#[trigger] tiers.drop_first()[k]) == tiers[
                k + 1
            ]);
        if st.hit.contains(t.multiplier) {
            lemma_plan_no_fires(st, tiers.drop_first(), ent, cur, v, gg, thr);
        } else {
            let d = spec_decide_tier(t, st.size, st.fees, ent, cur, v, gg, thr);
            assert(!(d is Fire));
            lemma_plan_no_fires(st, tiers.drop_first(), ent, cur, v, gg, thr);
            let rest = spec_plan(st, tiers.drop_first(), ent, cur, v, gg, thr);
            let p = spec_plan(st, tiers, ent, cur, v, gg, thr);
            assert(p == seq![(t, d)] + rest);
            assert forall|i: int| 0 <= i < p.len() implies !((#[trigger] p[i]).1 is Fire) by {
                if i > 0 {
                    assert(p[i] == rest[i - 1]);
                }
            }
        }
    }
}

/// Quiescence after a completed tick: once every firing a tick
/// proposed has been delivered and booked, a further pass under the
/// same price, volatility, gas estimate and floor proposes nothing.
pub proof fn lemma_plan_quiescent_after_tick(
    st: TickState,
    tiers: Seq<ProfitTier>,
    ent: int,
    cur: int,
    v: int,
    gg: int,
    thr: int,
)
    requires
        st_bounds(st),
        input_bounds(ent, cur, v, gg, thr),
        tiers_valid(tiers),
    ensures
        ({
            let f = spec_tick(st, tiers, ent, cur, v, gg, thr).1;
            let p = spec_plan(f, tiers, ent, cur, v, gg, thr);
            forall|i: int| 0 <= i < p.len() ==> !((#[trigger] p[i]).1 is Fire)
        }),
{
    lemma_tick_post_stable(st, tiers, ent, cur, v, gg, thr);
    let f = spec_tick(st, tiers, ent, cur, v, gg, thr).1;
    lemma_plan_no_fires(f, tiers, ent, cur, v, gg, thr);
}

/// At-most-once firing at the judging surface: a pass judges only
/// tiers not yet in the fired list, each at most once and in strictly
/// ascending multiplier order, and proposes at most one firing, as its
/// last verdict. The delivery-gated commit retires a booked tier, and
/// the fired list only grows, so each (position, tier) pair is booked
/// at most once over the position's life.
pub proof fn lemma_plan_at_most_once(
    st: TickState,
    tiers: Seq<ProfitTier>,
    ent: int,
    cur: int,
    v: int,
    gg: int,
    thr: int,
)
    requires
        tiers_ascending(tiers),
    ensures
        ({
            let p = spec_plan(st, tiers, ent, cur, v, gg, thr);
            &&& forall|i: int|
                0 <= i < p.len() ==> !st.hit.contains((#[trigger] p[i]).0.multiplier)
            &&& forall|i: int, j: int|
                0 <= i < j < p.len() ==> (#[trigger] p[i]).0.multiplier < (#[trigger] p[
                    j
                ]).0.multiplier
            &&& forall|i: int| 0 <= i < p.len() - 1 ==> !((#[trigger] p[i]).1 is Fire)
        }),
{
    lemma_plan_is_tick_prefix(st, tiers, ent, cur, v, gg, thr);
    lemma_tick_fresh(st, tiers, ent, cur, v, gg, thr);
    lemma_tick_outcomes_ascending(st, tiers, ent, cur, v, gg, thr);
    lemma_plan_fire_last(st, tiers, ent, cur, v, gg, thr);
    let p = spec_plan(st, tiers, ent, cur, v, gg, thr);
    let r = spec_tick(st, tiers, ent, cur, v, gg, thr);
    assert forall|i: int|
        0 <= i < p.len() implies !st.hit.contains((#[trigger] p[i]).0.multiplier) by {
        assert(r.0[i] == p[i]);
    }
    assert forall|i: int, j: int|
        0 <= i < j < p.len() implies (#[trigger] p[i]).0.multiplier < (#[trigger] p[
        j
    ]).0.multiplier by {
        assert(r.0[i] == p[i]);
        assert(r.0[j] == p[j]);
    }
}

/// Ordering at the judging surface: every tier not yet fired is either
/// judged in the pass, or lies above the pass's proposed firing and is
/// judged in the continuation once that firing is delivered. Together
/// with the ascending order of the verdicts, a tier can only fire
/// after every lower unfired tier has been judged in the same pass.
pub proof fn lemma_plan_ordering(
    st: TickState,
    tiers: Seq<ProfitTier>,
    ent: int,
    cur: int,
    v: int,
    gg: int,
    thr: int,
)
    requires
        tiers_ascending(tiers),
    ensures
        ({
            let p = spec_plan(st, tiers, ent, cur, v, gg, thr);
            forall|k: int|
                0 <= k < tiers.len() && !st.hit.contains((#[trigger] tiers[k]).multiplier)
                    ==> (exists|i: int| 0 <= i < p.len() && (#[trigger] p[i]).0 == tiers[k])
                    || (plan_has_fire(p) && p.last().0.multiplier < tiers[k].multiplier)
        }),
{
    lemma_plan_is_tick_prefix(st, tiers, ent, cur, v, gg, thr);
    lemma_tick_ordering(st, tiers, ent, cur, v, gg, thr);
    lemma_tick_outcomes_ascending(st, tiers, ent, cur, v, gg, thr);
    let p = spec_plan(st, tiers, ent, cur, v, gg, thr);
    let r = spec_tick(st, tiers, ent, cur, v, gg, thr);
    assert forall|k: int|
        0 <= k < tiers.len() && !st.hit.contains((#[trigger] tiers[k]).multiplier)
            implies (exists|i: int| 0 <= i < p.len() && (#[trigger] p[i]).0 == tiers[k]) || (
        plan_has_fire(p) && p.last().0.multiplier < tiers[k].multiplier) by {
        let i0 = choose|i0: int| 0 <= i0 < r.0.len() && r.0[i0].0 == tiers[k];
        if i0 < p.len() {
            assert(p[i0] == r.0[i0]);
            assert(p[i0].0 == tiers[k]);
        } else {
            // The pass stopped early, so it ended in a firing whose
            // multiplier sits below this tier's.
            assert(p.len() < r.0.len());
            if !plan_has_fire(p) {
                assert(r.0 == p);
                assert(false);
            }
            assert(p.last() == r.0[p.len() - 1]);
            assert(r.0[p.len() - 1].0.multiplier < r.0[i0].0.multiplier);
        }
    }
}

} // verus!
