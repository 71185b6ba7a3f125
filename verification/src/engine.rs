//! The profit-tier engine: owns the open positions, and on every tick
//! judges each of them against the tier ladder.
//!
//! The engine is deliberately free of clocks, price feeds and network
//! code: the host hands it prices, volatility observations, gas
//! estimates and timestamps, and receives fire events and skip reasons
//! back. That keeps every decision rule in verified code and leaves the
//! lookups, scheduling and submission to the caller.

use vstd::prelude::*;

use crate::errors::EngineError;
use crate::evaluate::{
    outcomes_match, plan_position, spec_plan, st_of, TierOutcome,
};
use crate::fixed::{MAX_FIRE_NET, MAX_GAS_ESTIMATE, MAX_POSITIONS, MAX_PRICE, MAX_SIZE, MAX_TIERS, SCALE};
use crate::position::TradeProfit;
use crate::tiers::{ladder_valid, ProfitTier};

verus! {

/// One volatility reading for one position, as handed in by the host's
/// estimator for a tick. A position without a reading is skipped for
/// that tick and judged again on the next one.
#[derive(Debug, Clone, Copy, PartialEq, Eq, Structural)]
pub struct TickObservation {
    /// Position the reading belongs to.
    pub trade_id: u64,
    /// Observed volatility in `[0, 1]`, scaled by `SCALE`.
    pub volatility: u64,
}

/// What one tick did to one position: every tier judged, with its
/// verdict, or a note that the position was skipped for want of an
/// observation. Nothing is dropped silently.
#[derive(Debug)]
pub struct TickReport {
    /// Position the report is about.
    pub trade_id: u64,
    /// Whether the position was judged at all this tick.
    pub ticked: bool,
    /// One outcome per judged tier, in ascending multiplier order, up
    /// to and including the first proposed firing; empty when not
    /// ticked. A proposed firing is booked only after delivery,
    /// through the delivery-gated commit.
    pub outcomes: Vec<TierOutcome>,
}

/// The engine. It exclusively owns its positions: callers register new
/// ones and read snapshots, and every mutation goes through a method.
pub struct ProfitManager {
    id: String,
    is_active: bool,
    profit_tiers: Vec<ProfitTier>,
    active_trades: Vec<TradeProfit>,
    min_profit_threshold: u64,
    next_trade_id: u64,
}

impl ProfitManager {
    /// The engine's identifier.
    pub closed spec fn spec_id(self) -> Seq<char> {
        self.id@
    }

    /// Whether the engine is marked live.
    pub closed spec fn spec_is_active(self) -> bool {
        self.is_active
    }

    /// The tier ladder.
    pub closed spec fn ladder(self) -> Seq<ProfitTier> {
        self.profit_tiers@
    }

    /// The managed positions, in registration order.
    pub closed spec fn trades(self) -> Seq<TradeProfit> {
        self.active_trades@
    }

    /// The global net-profit floor below which no tier fires.
    pub closed spec fn threshold(self) -> u64 {
        self.min_profit_threshold
    }

    /// The identity the next registered position will get.
    pub closed spec fn next_id(self) -> u64 {
        self.next_trade_id
    }

    /// Engine invariant: a well-formed ladder, every position well
    /// formed under it, identities distinct and below the next one to
    /// be issued, and no more positions than the engine accepts.
    pub closed spec fn wf(self) -> bool {
        &&& ladder_valid(self.profit_tiers@)
        &&& self.active_trades@.len() <= MAX_POSITIONS
        &&& forall|i: int|
            0 <= i < self.active_trades@.len() ==> (#[trigger] self.active_trades@[i]).wf(
                self.profit_tiers@,
            )
        &&& forall|i: int|
            0 <= i < self.active_trades@.len() ==> (#[trigger] self.active_trades@[
                i
            ]).trade_id < self.next_trade_id
        &&& forall|i: int, j: int|
            0 <= i < j < self.active_trades@.len() ==> (#[trigger] self.active_trades@[
                i
            ]).trade_id != (#[trigger] self.active_trades@[j]).trade_id
    }

    /// Builds an engine around a tier ladder and a profit floor.
    /// Succeeds exactly when the ladder is well formed.
    pub fn new(min_profit_threshold: u64, profit_tiers: Vec<ProfitTier>) -> (r: Result<
        ProfitManager,
        EngineError,
    >)
        ensures
            ladder_valid(profit_tiers@) <==> r is Ok,
            r is Err ==> r->Err_0 == EngineError::InvalidTier,
            r is Ok ==> {
                let m = r->Ok_0;
                &&& m.wf()
                &&& m.ladder() == profit_tiers@
                &&& m.threshold() == min_profit_threshold
                &&& m.trades() =~= Seq::<TradeProfit>::empty()
                &&& m.next_id() == 1
                &&& !m.spec_is_active()
                &&& m.spec_id().len() == 36
            },
    {
        if !crate::tiers::validate_ladder(&profit_tiers) {
            return Err(EngineError::InvalidTier);
        }
        Ok(
            ProfitManager {
                id: fresh_manager_id(),
                is_active: false,
                profit_tiers,
                active_trades: Vec::new(),
                min_profit_threshold,
                next_trade_id: 1,
            },
        )
    }

    /// Marks the engine live. The periodic tick loop itself belongs to
    /// the host scheduler, which is expected to stop ticking once
    /// `shutdown` has run.
    pub fn start_monitoring(&mut self)
        ensures
            final(self).spec_is_active(),
            final(self).spec_id() == old(self).spec_id(),
            final(self).ladder() == old(self).ladder(),
            final(self).trades() == old(self).trades(),
            final(self).threshold() == old(self).threshold(),
            final(self).next_id() == old(self).next_id(),
            old(self).wf() ==> final(self).wf(),
    {
        self.is_active = true;
    }

    /// Marks the engine stopped; an in-flight tick is left to finish.
    pub fn shutdown(&mut self)
        ensures
            !final(self).spec_is_active(),
            final(self).spec_id() == old(self).spec_id(),
            final(self).ladder() == old(self).ladder(),
            final(self).trades() == old(self).trades(),
            final(self).threshold() == old(self).threshold(),
            final(self).next_id() == old(self).next_id(),
            old(self).wf() ==> final(self).wf(),
    {
        self.is_active = false;
    }

    /// The engine's identifier.
    pub fn get_id(&self) -> (r: &str)
        ensures
            r@ == self.spec_id(),
    {
        self.id.as_str()
    }

    /// Whether the engine is marked live.
    pub fn is_active(&self) -> (r: bool)
        ensures
            r == self.spec_is_active(),
    {
        self.is_active
    }

    /// Registers a new position and returns its identity. Succeeds
    /// exactly when the entry price and size are positive and within
    /// the machine bounds; nothing changes on rejection.
    pub fn add_trade(
        &mut self,
        token_address: String,
        entry_price: u64,
        position_size: u64,
        now_ms: u64,
    ) -> (r: Result<u64, EngineError>)
        requires
            old(self).wf(),
            old(self).trades().len() < MAX_POSITIONS,
            old(self).next_id() < u64::MAX,
        ensures
            final(self).wf(),
            (1 <= entry_price <= MAX_PRICE && 1 <= position_size <= MAX_SIZE) <==> r is Ok,
            r is Err ==> r->Err_0 == EngineError::InvalidPosition && *final(self) == *old(self),
            r is Ok ==> {
                let t = final(self).trades().last();
                &&& r->Ok_0 == old(self).next_id()
                &&& final(self).trades() == old(self).trades().push(t)
                &&& t.trade_id == old(self).next_id()
                &&& t.token_address@ == token_address@
                &&& t.entry_price == entry_price
                &&& t.entry_time_ms == now_ms
                &&& t.current_price == entry_price
                &&& t.position_size == position_size
                &&& t.gas_fees == 0
                &&& t.realized_profits == 0
                &&& t.unrealized_profits == 0
                &&& t.profit_tiers_hit@.len() == 0
                &&& final(self).next_id() == old(self).next_id() + 1
            },
            final(self).spec_id() == old(self).spec_id(),
            final(self).ladder() == old(self).ladder(),
            final(self).threshold() == old(self).threshold(),
            final(self).spec_is_active() == old(self).spec_is_active(),
    {
        let id = self.next_trade_id;
        match TradeProfit::open(id, token_address, entry_price, position_size, now_ms) {
            Ok(t) => {
                self.active_trades.push(t);
                self.next_trade_id = id + 1;
                Ok(id)
            },
            Err(e) => Err(e),
        }
    }

    /// Updates the mark price of the position with the given identity
    /// and recomputes its mark-to-market profit. A missing identity is
    /// a quiet no-op: prices arrive asynchronously and may outlive
    /// their position. No tier is judged here.
    pub fn update_trade_price(&mut self, trade_id: u64, current_price: u64)
        requires
            old(self).wf(),
            1 <= current_price <= MAX_PRICE,
        ensures
            final(self).wf(),
            final(self).trades().len() == old(self).trades().len(),
            forall|i: int|
                0 <= i < old(self).trades().len() && (#[trigger] old(self).trades()[
                    i
                ]).trade_id != trade_id ==> final(self).trades()[i] == old(self).trades()[i],
            forall|i: int|
                0 <= i < old(self).trades().len() && (#[trigger] old(self).trades()[
                    i
                ]).trade_id == trade_id ==> price_updated(
                    final(self).trades()[i],
                    old(self).trades()[i],
                    current_price,
                ),
            final(self).spec_id() == old(self).spec_id(),
            final(self).ladder() == old(self).ladder(),
            final(self).threshold() == old(self).threshold(),
            final(self).next_id() == old(self).next_id(),
            final(self).spec_is_active() == old(self).spec_is_active(),
    {
        let n = self.active_trades.len();
        let mut i: usize = 0;
        while i < n
            invariant
                old(self).wf(),
                1 <= current_price <= MAX_PRICE,
                n == self.active_trades@.len(),
                0 <= i <= n,
                *self == *old(self),
                forall|k: int|
                    0 <= k < i ==> (#[trigger] self.active_trades@[k]).trade_id != trade_id,
            decreases n - i,
        {
            if self.active_trades[i].trade_id == trade_id {
                proof {
                    assert(self.active_trades@[i as int].wf(self.profit_tiers@));
                }
                let tr = &mut self.active_trades[i];
                tr.update_price(current_price);
                proof {
                    let post = self.active_trades@;
                    let pre = old(self).active_trades@;
                    assert(post =~= pre.update(i as int, post[i as int]));
                    assert forall|k: int|
                        0 <= k < post.len() implies (#[trigger] post[k]).wf(
                        self.profit_tiers@,
                    ) by {
                        assert(pre[k].wf(old(self).profit_tiers@));
                    }
                }
                return ;
            }
            i = i + 1;
        }
    }

    /// A snapshot of the position with the given identity, if it is
    /// still managed.
    pub fn get_trade_profits(&self, trade_id: u64) -> (r: Option<TradeProfit>)
        requires
            self.wf(),
        ensures
            r is Some <==> exists|i: int|
                0 <= i < self.trades().len() && (#[trigger] self.trades()[i]).trade_id
                    == trade_id,
            r is Some ==> exists|i: int|
                0 <= i < self.trades().len() && (#[trigger] self.trades()[i]).trade_id
                    == trade_id && same_trade(r->0, self.trades()[i]),
    {
        let n = self.active_trades.len();
        let mut i: usize = 0;
        while i < n
            invariant
                n == self.active_trades@.len(),
                0 <= i <= n,
                forall|k: int|
                    0 <= k < i ==> (#[trigger] self.active_trades@[k]).trade_id != trade_id,
            decreases n - i,
        {
            if self.active_trades[i].trade_id == trade_id {
                let c = self.active_trades[i].clone();
                proof {
                    assert(self.trades()[i as int].trade_id == trade_id);
                    assert(same_trade(c, self.trades()[i as int]));
                }
                return Some(c);
            }
            i = i + 1;
        }
        None
    }

    /// Banked plus mark-to-market profit over every managed position.
    pub fn get_total_profits(&self) -> (r: i128)
        requires
            self.wf(),
        ensures
            r == spec_total_profits(self.trades()),
    {
        let n = self.active_trades.len();
        let mut total: i128 = 0;
        let mut i: usize = 0;
        while i < n
            invariant
                self.wf(),
                n == self.active_trades@.len(),
                0 <= i <= n,
                total == spec_total_profits(self.active_trades@.take(i as int)),
                -((i as int) * 65_000_000_000_000_000_000) <= total <= (i as int)
                    * 65_000_000_000_000_000_000,
            decreases n - i,
        {
            let tr = &self.active_trades[i];
            proof {
                assert(self.active_trades@[i as int].wf(self.profit_tiers@));
                crate::position::lemma_hit_count_bounded(
                    tr.profit_tiers_hit@,
                    self.profit_tiers@,
                );
                assert(tr.realized_profits <= MAX_TIERS * MAX_FIRE_NET);
                assert(-(MAX_FIRE_NET as int) <= tr.unrealized_profits <= MAX_FIRE_NET);
                assert(self.active_trades@.take(i + 1).drop_last() =~= self.active_trades@.take(
                    i as int,
                ));
            }
            total = total + (tr.realized_profits as i128) + tr.unrealized_profits;
            i = i + 1;
        }
        proof {
            assert(self.active_trades@.take(n as int) =~= self.active_trades@);
        }
        total
    }

    /// One tick: judges every position that has a volatility reading
    /// against its not-yet-fired tiers in ascending order, and reports
    /// one outcome per judged tier, stopping at the first tier that
    /// fires. Nothing is booked here: a proposed firing awaits the
    /// executor, and only a delivered sale is booked, through
    /// `commit_trade_fire`; a further tick then judges the remaining
    /// tiers against the booked state. A failed or exhausted
    /// submission therefore leaves the tier unfired and the position
    /// unchanged, to be judged again next tick. Positions without a
    /// reading are reported as not ticked.
    pub fn check_profit_tiers(
        &self,
        observations: &Vec<TickObservation>,
        gas_estimate: u64,
    ) -> (reports: Vec<TickReport>)
        requires
            self.wf(),
            gas_estimate <= MAX_GAS_ESTIMATE,
            forall|k: int|
                0 <= k < observations@.len() ==> (#[trigger] observations@[k]).volatility
                    <= SCALE,
        ensures
            reports@.len() == self.trades().len(),
            forall|i: int|
                0 <= i < self.trades().len() ==> tick_effect(
                    #[trigger] self.trades()[i],
                    reports@[i],
                    self.ladder(),
                    observations@,
                    gas_estimate as int,
                    self.threshold() as int,
                ),
    {
        let n = self.active_trades.len();
        let mut reports: Vec<TickReport> = Vec::new();
        let mut i: usize = 0;
        while i < n
            invariant
                self.wf(),
                gas_estimate <= MAX_GAS_ESTIMATE,
                forall|k: int|
                    0 <= k < observations@.len() ==> (#[trigger] observations@[k]).volatility
                        <= SCALE,
                n == self.active_trades@.len(),
                0 <= i <= n,
                reports@.len() == i,
                forall|k: int|
                    0 <= k < i ==> tick_effect(
                        #[trigger] self.active_trades@[k],
                        reports@[k],
                        self.profit_tiers@,
                        observations@,
                        gas_estimate as int,
                        self.min_profit_threshold as int,
                    ),
            decreases n - i,
        {
            let tid = self.active_trades[i].trade_id;
            match find_observation(observations, tid) {
                Some(vol) => {
                    proof {
                        assert(self.active_trades@[i as int].wf(self.profit_tiers@));
                        lemma_obs_for_in(observations@, tid);
                    }
                    let outs = plan_position(
                        &self.active_trades[i],
                        &self.profit_tiers,
                        vol,
                        gas_estimate,
                        self.min_profit_threshold,
                    );
                    reports.push(TickReport { trade_id: tid, ticked: true, outcomes: outs });
                },
                None => {
                    reports.push(
                        TickReport { trade_id: tid, ticked: false, outcomes: Vec::new() },
                    );
                },
            }
            i = i + 1;
        }
        reports
    }

    /// A read-only snapshot of every open position, in registration
    /// order.
    pub fn get_open_positions(&self) -> (r: Vec<TradeProfit>)
        ensures
            r@.len() == self.trades().len(),
            forall|i: int|
                0 <= i < r@.len() ==> same_trade(#[trigger] r@[i], self.trades()[i]),
    {
        let n = self.active_trades.len();
        let mut r: Vec<TradeProfit> = Vec::new();
        let mut i: usize = 0;
        while i < n
            invariant
                n == self.active_trades@.len(),
                0 <= i <= n,
                r@.len() == i,
                forall|k: int|
                    0 <= k < i ==> same_trade(#[trigger] r@[k], self.active_trades@[k]),
            decreases n - i,
        {
            let c = self.active_trades[i].clone();
            proof {
                assert(same_trade(c, self.active_trades@[i as int]));
            }
            r.push(c);
            i = i + 1;
        }
        r
    }

    /// Profit actually banked by fired tiers, summed over every
    /// managed position; the mark-to-market of what is still held is
    /// not included.
    pub fn get_total_realized_profit(&self) -> (r: u128)
        requires
            self.wf(),
        ensures
            r == spec_total_realized(self.trades()),
    {
        let n = self.active_trades.len();
        let mut total: u128 = 0;
        let mut i: usize = 0;
        while i < n
            invariant
                self.wf(),
                n == self.active_trades@.len(),
                0 <= i <= n,
                total == spec_total_realized(self.active_trades@.take(i as int)),
                total <= (i as int) * 64_000_000_000_000_000_000,
            decreases n - i,
        {
            let tr = &self.active_trades[i];
            proof {
                assert(self.active_trades@[i as int].wf(self.profit_tiers@));
                crate::position::lemma_hit_count_bounded(
                    tr.profit_tiers_hit@,
                    self.profit_tiers@,
                );
                assert(tr.realized_profits <= MAX_TIERS * MAX_FIRE_NET);
                assert(self.active_trades@.take(i + 1).drop_last() =~= self.active_trades@.take(
                    i as int,
                ));
            }
            total = total + tr.realized_profits;
            i = i + 1;
        }
        proof {
            assert(self.active_trades@.take(n as int) =~= self.active_trades@);
        }
        total
    }

    /// Books a delivered firing against the position with the given
    /// identity. This is the delivery-gated path: the host judges a
    /// tier on a snapshot, submits the sale through the executor, and
    /// only on a successful result books it here, so a failed
    /// submission leaves the tier unfired and re-judged next tick.
    pub fn commit_trade_fire(&mut self, trade_id: u64, ev: &crate::evaluate::TierFireEvent)
        requires
            old(self).wf(),
            crate::tiers::ladder_multipliers(old(self).ladder()).contains(ev.tier_multiplier),
            0 < ev.net_profit <= crate::fixed::MAX_FIRE_NET,
            ev.estimated_gas <= crate::fixed::MAX_FIRE_GAS,
            forall|i: int|
                0 <= i < old(self).trades().len() && (#[trigger] old(self).trades()[
                    i
                ]).trade_id == trade_id ==> ev.sell_amount <= old(self).trades()[
                    i
                ].position_size && !old(self).trades()[i].profit_tiers_hit@.contains(
                    ev.tier_multiplier,
                ),
        ensures
            final(self).wf(),
            final(self).trades().len() == old(self).trades().len(),
            forall|i: int|
                0 <= i < old(self).trades().len() && (#[trigger] old(self).trades()[
                    i
                ]).trade_id != trade_id ==> final(self).trades()[i] == old(self).trades()[i],
            forall|i: int|
                0 <= i < old(self).trades().len() && (#[trigger] old(self).trades()[
                    i
                ]).trade_id == trade_id ==> {
                    let pre = old(self).trades()[i];
                    let post = final(self).trades()[i];
                    &&& post.position_size == pre.position_size - ev.sell_amount
                    &&& post.gas_fees == pre.gas_fees + ev.estimated_gas
                    &&& post.realized_profits == pre.realized_profits + ev.net_profit
                    &&& post.profit_tiers_hit@ == pre.profit_tiers_hit@.push(
                        ev.tier_multiplier,
                    )
                    &&& post.trade_id == pre.trade_id
                    &&& post.token_address == pre.token_address
                    &&& post.entry_price == pre.entry_price
                    &&& post.entry_time_ms == pre.entry_time_ms
                    &&& post.current_price == pre.current_price
                    &&& post.unrealized_profits == pre.unrealized_profits
                    &&& position_monotone(pre, post)
                },
            final(self).spec_id() == old(self).spec_id(),
            final(self).ladder() == old(self).ladder(),
            final(self).threshold() == old(self).threshold(),
            final(self).next_id() == old(self).next_id(),
            final(self).spec_is_active() == old(self).spec_is_active(),
    {
        let n = self.active_trades.len();
        let mut i: usize = 0;
        while i < n
            invariant
                old(self).wf(),
                crate::tiers::ladder_multipliers(old(self).ladder()).contains(
                    ev.tier_multiplier,
                ),
                0 < ev.net_profit <= crate::fixed::MAX_FIRE_NET,
                ev.estimated_gas <= crate::fixed::MAX_FIRE_GAS,
                forall|k: int|
                    0 <= k < old(self).trades().len() && (#[trigger] old(self).trades()[
                        k
                    ]).trade_id == trade_id ==> ev.sell_amount <= old(self).trades()[
                        k
                    ].position_size && !old(self).trades()[k].profit_tiers_hit@.contains(
                        ev.tier_multiplier,
                    ),
                n == self.active_trades@.len(),
                0 <= i <= n,
                *self == *old(self),
                forall|k: int|
                    0 <= k < i ==> (#[trigger] self.active_trades@[k]).trade_id != trade_id,
            decreases n - i,
        {
            if self.active_trades[i].trade_id == trade_id {
                proof {
                    assert(self.active_trades@[i as int].wf(self.profit_tiers@));
                    crate::position::lemma_hit_count_bounded(
                        self.active_trades@[i as int].profit_tiers_hit@,
                        self.profit_tiers@,
                    );
                    assert(old(self).trades()[i as int].trade_id == trade_id);
                    assert(ev.sell_amount <= old(self).trades()[i as int].position_size);
                    assert(!old(self).trades()[i as int].profit_tiers_hit@.contains(
                        ev.tier_multiplier,
                    ));
                }
                let tr = &mut self.active_trades[i];
                crate::evaluate::commit_fire(tr, ev);
                proof {
                    let post = self.active_trades@;
                    let pre = old(self).active_trades@;
                    assert(post =~= pre.update(i as int, post[i as int]));
                    assert forall|k: int| 0 <= k < post.len() implies (#[trigger] post[
                        k
                    ]).wf(self.profit_tiers@) by {
                        assert(pre[k].wf(old(self).profit_tiers@));
                    }
                }
                return ;
            }
            i = i + 1;
        }
    }

    /// Housekeeping: drops every position older than `max_age_ms` from
    /// tracking, keeping the rest in order. Nothing is sold here;
    /// aging out is the caller's policy, not a trading decision.
    pub fn cleanup_completed_trades(&mut self, now_ms: u64, max_age_ms: u64)
        requires
            old(self).wf(),
        ensures
            final(self).wf(),
            final(self).trades() == spec_retained(
                old(self).trades(),
                now_ms as int,
                max_age_ms as int,
            ),
            final(self).spec_id() == old(self).spec_id(),
            final(self).ladder() == old(self).ladder(),
            final(self).threshold() == old(self).threshold(),
            final(self).next_id() == old(self).next_id(),
            final(self).spec_is_active() == old(self).spec_is_active(),
    {
        let n = self.active_trades.len();
        let mut kept: Vec<TradeProfit> = Vec::new();
        let mut i: usize = 0;
        while i < n
            invariant
                old(self).wf(),
                n == old(self).active_trades@.len(),
                0 <= i <= n,
                self.id == old(self).id,
                self.is_active == old(self).is_active,
                self.profit_tiers == old(self).profit_tiers,
                self.min_profit_threshold == old(self).min_profit_threshold,
                self.next_trade_id == old(self).next_trade_id,
                self.active_trades@ == old(self).active_trades@.skip(i as int),
                kept@ == spec_retained(
                    old(self).active_trades@.take(i as int),
                    now_ms as int,
                    max_age_ms as int,
                ),
            decreases n - i,
        {
            proof {
                assert(old(self).active_trades@.skip(i as int)[0] == old(self).active_trades@[
                    i as int
                ]);
            }
            let t = self.active_trades.remove(0);
            proof {
                assert(self.active_trades@ =~= old(self).active_trades@.skip(i + 1));
                assert(old(self).active_trades@.take(i + 1).drop_last()
                    =~= old(self).active_trades@.take(i as int));
                assert(old(self).active_trades@.take(i + 1).last() == old(
                    self,
                ).active_trades@[i as int]);
            }
            if (t.entry_time_ms as u128) + (max_age_ms as u128) > (now_ms as u128) {
                kept.push(t);
            }
            i = i + 1;
        }
        proof {
            assert(old(self).active_trades@.take(n as int) =~= old(self).active_trades@);
        }
        self.active_trades = kept;
        proof {
            lemma_retained_props(old(self).active_trades@, now_ms as int, max_age_ms as int);
            let r = spec_retained(old(self).active_trades@, now_ms as int, max_age_ms as int);
            assert forall|k: int| 0 <= k < r.len() implies (#[trigger] r[k]).wf(
                self.profit_tiers@,
            ) && r[k].trade_id < self.next_trade_id by {
                let j = choose|j: int|
                    0 <= j < old(self).active_trades@.len() && r[k] == old(
                        self,
                    ).active_trades@[j];
                assert(old(self).active_trades@[j].wf(old(self).profit_tiers@));
            }
        }
    }
}

/// Relies on `uuid::Uuid::new_v4` and its `Display` form: a fresh
/// version-4 identifier rendered in the hyphenated format, which is
/// always 36 characters long. Nothing else is assumed of the random
/// value.
#[verifier::external_body]
fn fresh_manager_id() -> (r: String)
    ensures
        r@.len() == 36,
{
    uuid::Uuid::new_v4().to_string()
}


/// Whether `post` is `pre` with its mark price set to `price` and its
/// mark-to-market profit recomputed, everything else untouched.
pub open spec fn price_updated(post: TradeProfit, pre: TradeProfit, price: u64) -> bool {
    &&& post.current_price == price
    &&& post.unrealized_profits == crate::position::spec_unrealized(
        price as int,
        pre.entry_price as int,
        pre.position_size as int,
    )
    &&& post.trade_id == pre.trade_id
    &&& post.token_address == pre.token_address
    &&& post.entry_price == pre.entry_price
    &&& post.entry_time_ms == pre.entry_time_ms
    &&& post.position_size == pre.position_size
    &&& post.gas_fees == pre.gas_fees
    &&& post.realized_profits == pre.realized_profits
    &&& post.profit_tiers_hit == pre.profit_tiers_hit
}

/// Whether two position records carry the same bookkeeping, field for
/// field.
pub open spec fn same_trade(a: TradeProfit, b: TradeProfit) -> bool {
    &&& a.trade_id == b.trade_id
    &&& a.token_address == b.token_address
    &&& a.entry_price == b.entry_price
    &&& a.entry_time_ms == b.entry_time_ms
    &&& a.current_price == b.current_price
    &&& a.position_size == b.position_size
    &&& a.gas_fees == b.gas_fees
    &&& a.realized_profits == b.realized_profits
    &&& a.unrealized_profits == b.unrealized_profits
    &&& a.profit_tiers_hit@ == b.profit_tiers_hit@
}

/// Banked profit alone, summed over a set of positions.
pub open spec fn spec_total_realized(s: Seq<TradeProfit>) -> int
    decreases s.len(),
{
    if s.len() == 0 {
        0
    } else {
        spec_total_realized(s.drop_last()) + s.last().realized_profits
    }
}

/// Banked plus mark-to-market profit, summed over a set of positions.
pub open spec fn spec_total_profits(s: Seq<TradeProfit>) -> int
    decreases s.len(),
{
    if s.len() == 0 {
        0
    } else {
        spec_total_profits(s.drop_last()) + s.last().realized_profits
            + s.last().unrealized_profits
    }
}


/// The volatility reading the tick uses for a position: that of the
/// first observation carrying its identity, if any.
pub open spec fn spec_obs_for(obs: Seq<TickObservation>, id: u64) -> Option<u64>
    decreases obs.len(),
{
    if obs.len() == 0 {
        None
    } else if obs[0].trade_id == id {
        Some(obs[0].volatility)
    } else {
        spec_obs_for(obs.drop_first(), id)
    }
}

/// A match at `i` with no earlier match is the first match.
proof fn lemma_obs_for_found(obs: Seq<TickObservation>, id: u64, i: int)
    requires
        0 <= i < obs.len(),
        forall|k: int| 0 <= k < i ==> (#[trigger] obs[k]).trade_id != id,
        obs[i].trade_id == id,
    ensures
        spec_obs_for(obs, id) == Some(obs[i].volatility),
    decreases i,
{
    if i == 0 {
    } else {
        assert(obs[0].trade_id != id);
        assert(obs.drop_first()[i - 1] == obs[i]);
        assert(forall|k: int|
            0 <= k < i - 1 ==> (#[trigger] obs.drop_first()[k]).trade_id != id && obs.drop_first()[
                k
            ] == obs[k + 1]);
        lemma_obs_for_found(obs.drop_first(), id, i - 1);
    }
}

/// No match anywhere means no reading.
proof fn lemma_obs_for_none(obs: Seq<TickObservation>, id: u64)
    requires
        forall|k: int| 0 <= k < obs.len() ==> (#[trigger] obs[k]).trade_id != id,
    ensures
        spec_obs_for(obs, id) is None,
    decreases obs.len(),
{
    if obs.len() > 0 {
        assert(forall|k: int|
            0 <= k < obs.len() - 1 ==> (#[trigger] obs.drop_first()[k]) == obs[k + 1]);
        lemma_obs_for_none(obs.drop_first(), id);
    }
}

/// Finds the volatility reading for a position: the first observation
/// carrying its identity.
fn find_observation(observations: &Vec<TickObservation>, trade_id: u64) -> (r: Option<u64>)
    ensures
        r == spec_obs_for(observations@, trade_id),
{
    let n = observations.len();
    let mut i: usize = 0;
    while i < n
        invariant
            n == observations@.len(),
            0 <= i <= n,
            forall|k: int| 0 <= k < i ==> (#[trigger] observations@[k]).trade_id != trade_id,
        decreases n - i,
    {
        if observations[i].trade_id == trade_id {
            proof {
                lemma_obs_for_found(observations@, trade_id, i as int);
            }
            return Some(observations[i].volatility);
        }
        i = i + 1;
    }
    proof {
        lemma_obs_for_none(observations@, trade_id);
    }
    None
}


/// One position never moves backwards: size only shrinks, booked gas
/// and banked profit only grow, and the fired-tier list only gains
/// entries at its end.
pub open spec fn position_monotone(pre: TradeProfit, post: TradeProfit) -> bool {
    &&& post.position_size <= pre.position_size
    &&& post.gas_fees >= pre.gas_fees
    &&& post.realized_profits >= pre.realized_profits
    &&& pre.profit_tiers_hit@.len() <= post.profit_tiers_hit@.len()
    &&& forall|k: int|
        0 <= k < pre.profit_tiers_hit@.len() ==> post.profit_tiers_hit@[k]
            == pre.profit_tiers_hit@[k]
}

/// What one tick owes one position: either its not-yet-fired tiers
/// were judged, in ascending order up to the first proposed firing,
/// under the volatility reading the observations carry for it, with
/// every verdict reported; or there was no reading and it is reported
/// as not ticked. The tick itself books nothing: a proposed firing is
/// booked only through the delivery-gated commit, once the executor
/// has reported success.
pub open spec fn tick_effect(
    pre: TradeProfit,
    rep: TickReport,
    ladder: Seq<ProfitTier>,
    obs: Seq<TickObservation>,
    gg: int,
    thr: int,
) -> bool {
    &&& rep.trade_id == pre.trade_id
    &&& match spec_obs_for(obs, pre.trade_id) {
        None => {
            &&& !rep.ticked
            &&& rep.outcomes@.len() == 0
        },
        Some(v) => {
            let r = spec_plan(
                st_of(pre),
                ladder,
                pre.entry_price as int,
                pre.current_price as int,
                v as int,
                gg,
                thr,
            );
            &&& rep.ticked
            &&& outcomes_match(rep.outcomes@, r)
        },
    }
}

/// Whether a position opened at `entry_time_ms` is still young enough
/// to keep tracking.
pub open spec fn spec_kept(t: TradeProfit, now: int, max_age: int) -> bool {
    t.entry_time_ms + max_age > now
}

/// The positions that survive a housekeeping sweep, in their original
/// order.
pub open spec fn spec_retained(s: Seq<TradeProfit>, now: int, max_age: int) -> Seq<TradeProfit>
    decreases s.len(),
{
    if s.len() == 0 {
        Seq::empty()
    } else {
        let r = spec_retained(s.drop_last(), now, max_age);
        if spec_kept(s.last(), now, max_age) {
            r.push(s.last())
        } else {
            r
        }
    }
}

/// A sweep only selects existing positions and keeps identities
/// distinct.
proof fn lemma_retained_props(s: Seq<TradeProfit>, now: int, max_age: int)
    requires
        forall|a: int, b: int|
            0 <= a < b < s.len() ==> (#[trigger] s[a]).trade_id != (#[trigger] s[b]).trade_id,
    ensures
        ({
            let r = spec_retained(s, now, max_age);
            &&& r.len() <= s.len()
            &&& forall|k: int|
                0 <= k < r.len() ==> exists|j: int| 0 <= j < s.len() && #[trigger] r[k] == s[j]
            &&& forall|a: int, b: int|
                0 <= a < b < r.len() ==> (#[trigger] r[a]).trade_id != (#[trigger] r[
                    b
                ]).trade_id
        }),
    decreases s.len(),
{
    if s.len() > 0 {
        lemma_retained_props(s.drop_last(), now, max_age);
        let r0 = spec_retained(s.drop_last(), now, max_age);
        let r = spec_retained(s, now, max_age);
        assert forall|k: int| 0 <= k < r0.len() implies exists|j: int|
            0 <= j < s.len() && #[trigger] r0[k] == s[j] by {
            let j = choose|j: int| 0 <= j < s.drop_last().len() && r0[k] == s.drop_last()[j];
            assert(s.drop_last()[j] == s[j]);
            assert(r0[k] == s[j]);
        }
        if spec_kept(s.last(), now, max_age) {
            assert(r == r0.push(s.last()));
            assert forall|a: int, b: int| 0 <= a < b < r.len() implies (#[trigger] r[
                a
            ]).trade_id != (#[trigger] r[b]).trade_id by {
                if b == r.len() - 1 {
                    let j = choose|j: int|
                        0 <= j < s.drop_last().len() && r0[a] == s.drop_last()[j];
                    assert(r[a] == s[j]);
                    assert(r[b] == s[s.len() - 1]);
                    assert(s[j].trade_id != s[s.len() - 1].trade_id);
                }
            }
        }
    }
}


/// A reading the tick uses comes from one of the observations.
proof fn lemma_obs_for_in(obs: Seq<TickObservation>, id: u64)
    ensures
        spec_obs_for(obs, id) is Some ==> exists|k: int|
            0 <= k < obs.len() && #[trigger] obs[k].volatility == spec_obs_for(obs, id)->0,
    decreases obs.len(),
{
    if obs.len() > 0 && obs[0].trade_id != id {
        lemma_obs_for_in(obs.drop_first(), id);
        if spec_obs_for(obs, id) is Some {
            let k = choose|k: int|
                0 <= k < obs.drop_first().len() && #[trigger] obs.drop_first()[k].volatility
                    == spec_obs_for(obs.drop_first(), id)->0;
            assert(obs[k + 1].volatility == spec_obs_for(obs, id)->0);
        }
    }
}

} // verus!
