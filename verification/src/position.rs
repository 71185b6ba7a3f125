//! An open position managed by the profit-tier engine.
//!
//! The engine owns every `TradeProfit` exclusively: callers register new
//! positions and read snapshots, and every mutation happens through the
//! engine. Raw prices, sizes and money amounts are fixed-point values as
//! laid out in `fixed`.

use vstd::prelude::*;

use crate::errors::EngineError;
use crate::fixed::{
    MAX_FIRE_GAS, MAX_FIRE_NET, MAX_PRICE, MAX_SIZE, SCALE,
};
use crate::tiers::{ladder_multipliers, ProfitTier};

verus! {

/// Bookkeeping for one open position.
#[derive(Debug)]
pub struct TradeProfit {
    /// Engine-assigned identity of the position.
    pub trade_id: u64,
    /// Token the position is in; opaque to the engine.
    pub token_address: String,
    /// Price paid per unit at entry, raw fixed-point, positive.
    pub entry_price: u64,
    /// When the position was opened, in milliseconds.
    pub entry_time_ms: u64,
    /// Latest mark price per unit, raw fixed-point, positive.
    pub current_price: u64,
    /// Remaining tradable quantity; never increases.
    pub position_size: u64,
    /// Cumulative gas booked against the position; never decreases.
    pub gas_fees: u64,
    /// Profit banked by fired tiers; never decreases.
    pub realized_profits: u128,
    /// Mark-to-market profit of the remaining size at the last price
    /// update; negative when under water.
    pub unrealized_profits: i128,
    /// Multipliers of the tiers that have fired, in firing order.
    /// Append-only: a multiplier in this list is never evaluated again.
    pub profit_tiers_hit: Vec<u64>,
}

/// Mark-to-market profit of `size` units bought at `ent` and marked at
/// `cur`, rounded toward zero.
pub open spec fn spec_unrealized(cur: int, ent: int, size: int) -> int {
    if cur >= ent {
        (size * (cur - ent)) / (SCALE as int)
    } else {
        -((size * (ent - cur)) / (SCALE as int))
    }
}

impl TradeProfit {
    /// Well-formedness of a position under a given tier ladder: prices
    /// and size in range, fired tiers distinct and drawn from the
    /// ladder, and the money fields within what that many firings can
    /// have booked.
    pub open spec fn wf(self, tiers: Seq<ProfitTier>) -> bool {
        &&& 1 <= self.entry_price <= MAX_PRICE
        &&& 1 <= self.current_price <= MAX_PRICE
        &&& self.position_size <= MAX_SIZE
        &&& self.gas_fees <= self.profit_tiers_hit@.len() * MAX_FIRE_GAS
        &&& self.realized_profits <= self.profit_tiers_hit@.len() * MAX_FIRE_NET
        &&& -(MAX_FIRE_NET as int) <= self.unrealized_profits <= MAX_FIRE_NET
        &&& self.profit_tiers_hit@.no_duplicates()
        &&& forall|k: int|
            0 <= k < self.profit_tiers_hit@.len() ==> ladder_multipliers(tiers).contains(
                #[trigger] self.profit_tiers_hit@[k],
            )
    }

    /// Opens a fresh position. Succeeds exactly when the entry price and
    /// size are positive and within the machine bounds.
    pub fn open(
        trade_id: u64,
        token_address: String,
        entry_price: u64,
        position_size: u64,
        now_ms: u64,
    ) -> (r: Result<TradeProfit, EngineError>)
        ensures
            (1 <= entry_price <= MAX_PRICE && 1 <= position_size <= MAX_SIZE) <==> r is Ok,
            r is Err ==> r->Err_0 == EngineError::InvalidPosition,
            r is Ok ==> {
                let t = r->Ok_0;
                &&& t.trade_id == trade_id
                &&& t.token_address@ == token_address@
                &&& t.entry_price == entry_price
                &&& t.entry_time_ms == now_ms
                &&& t.current_price == entry_price
                &&& t.position_size == position_size
                &&& t.gas_fees == 0
                &&& t.realized_profits == 0
                &&& t.unrealized_profits == 0
                &&& t.profit_tiers_hit@ =~= Seq::<u64>::empty()
                &&& forall|tiers: Seq<ProfitTier>| t.wf(tiers)
            },
    {
        if entry_price == 0 || entry_price > MAX_PRICE || position_size == 0 || position_size
            > MAX_SIZE {
            return Err(EngineError::InvalidPosition);
        }
        let t = TradeProfit {
            trade_id,
            token_address,
            entry_price,
            entry_time_ms: now_ms,
            current_price: entry_price,
            position_size,
            gas_fees: 0,
            realized_profits: 0,
            unrealized_profits: 0,
            profit_tiers_hit: Vec::new(),
        };
        Ok(t)
    }

    /// Updates the mark price and recomputes the mark-to-market profit
    /// of the remaining size. Pure bookkeeping: no tier is evaluated
    /// here, and size, fees, banked profit and fired tiers are
    /// untouched.
    pub fn update_price(&mut self, current_price: u64)
        requires
            1 <= current_price <= MAX_PRICE,
            old(self).entry_price >= 1,
            old(self).entry_price <= MAX_PRICE,
            old(self).position_size <= MAX_SIZE,
        ensures
            final(self).current_price == current_price,
            final(self).unrealized_profits == spec_unrealized(
                current_price as int,
                old(self).entry_price as int,
                old(self).position_size as int,
            ),
            final(self).trade_id == old(self).trade_id,
            final(self).token_address == old(self).token_address,
            final(self).entry_price == old(self).entry_price,
            final(self).entry_time_ms == old(self).entry_time_ms,
            final(self).position_size == old(self).position_size,
            final(self).gas_fees == old(self).gas_fees,
            final(self).realized_profits == old(self).realized_profits,
            final(self).profit_tiers_hit == old(self).profit_tiers_hit,
            forall|tiers: Seq<ProfitTier>|
                old(self).wf(tiers) ==> #[trigger] final(self).wf(tiers),
    {
        self.current_price = current_price;
        let size = self.position_size as u128;
        if current_price >= self.entry_price {
            let gain = (current_price - self.entry_price) as u128;
            proof {
                crate::fixed::lemma_muldiv_bound(
                    size as int,
                    gain as int,
                    MAX_SIZE as int,
                    MAX_PRICE as int,
                    SCALE as int,
                );
            }
            let marked: u128 = size * gain / (SCALE as u128);
            self.unrealized_profits = marked as i128;
            proof {
                assert(marked <= MAX_FIRE_NET);
            }
        } else {
            let loss = (self.entry_price - current_price) as u128;
            proof {
                crate::fixed::lemma_muldiv_bound(
                    size as int,
                    loss as int,
                    MAX_SIZE as int,
                    MAX_PRICE as int,
                    SCALE as int,
                );
            }
            let marked: u128 = size * loss / (SCALE as u128);
            self.unrealized_profits = -(marked as i128);
            proof {
                assert(marked <= MAX_FIRE_NET);
            }
        }
    }
}

impl Clone for TradeProfit {
    /// A field-for-field copy of the position.
    fn clone(&self) -> (r: Self)
        ensures
            r.trade_id == self.trade_id,
            r.token_address == self.token_address,
            r.entry_price == self.entry_price,
            r.entry_time_ms == self.entry_time_ms,
            r.current_price == self.current_price,
            r.position_size == self.position_size,
            r.gas_fees == self.gas_fees,
            r.realized_profits == self.realized_profits,
            r.unrealized_profits == self.unrealized_profits,
            r.profit_tiers_hit@ == self.profit_tiers_hit@,
    {
        let hit = self.profit_tiers_hit.clone();
        proof {
            assert(hit@ =~= self.profit_tiers_hit@);
        }
        TradeProfit {
            trade_id: self.trade_id,
            token_address: self.token_address.clone(),
            entry_price: self.entry_price,
            entry_time_ms: self.entry_time_ms,
            current_price: self.current_price,
            position_size: self.position_size,
            gas_fees: self.gas_fees,
            realized_profits: self.realized_profits,
            unrealized_profits: self.unrealized_profits,
            profit_tiers_hit: hit,
        }
    }
}

/// A distinct selection out of a ladder's multipliers can never hold
/// more entries than the ladder has tiers.
pub proof fn lemma_hit_count_bounded(hit: Seq<u64>, tiers: Seq<ProfitTier>)
    requires
        hit.no_duplicates(),
        forall|k: int|
            0 <= k < hit.len() ==> ladder_multipliers(tiers).contains(#[trigger] hit[k]),
    ensures
        hit.len() <= tiers.len(),
{
    broadcast use vstd::seq_lib::group_seq_properties;

    hit.unique_seq_to_set();
    let ms = ladder_multipliers(tiers);
    assert forall|x: u64| hit.to_set().contains(x) implies ms.to_set().contains(x) by {
        assert(hit.contains(x));
        let k = choose|k: int| 0 <= k < hit.len() && hit[k] == x;
        assert(ms.contains(x));
    }
    assert(hit.to_set() <= ms.to_set());
    vstd::set_lib::lemma_len_subset(hit.to_set(), ms.to_set());
    ms.lemma_cardinality_of_set();
}

} // verus!
