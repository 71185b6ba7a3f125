use exit_pipeline::engine::{ProfitManager, TickObservation};
use exit_pipeline::errors::EngineError;
use exit_pipeline::evaluate::{evaluate_tier, SkipReason, TierFireEvent, TierOutcome};
use exit_pipeline::tiers::{default_profit_tiers, ProfitTier};

const SCALE: u64 = 1_000_000;

/// Drives tick passes to quiescence with every proposed firing
/// delivered: each pass's proposed fire is booked as if the executor
/// had confirmed it, until a pass proposes nothing. Returns how many
/// firings were booked.
fn run_full_tick(engine: &mut ProfitManager, obs: &Vec<TickObservation>, gas: u64) -> usize {
    let mut fired: usize = 0;
    loop {
        let reports = engine.check_profit_tiers(obs, gas);
        let mut delivered: Vec<(u64, TierFireEvent)> = Vec::new();
        for rep in &reports {
            if let Some(TierOutcome::Fired(ev)) = rep.outcomes.last() {
                delivered.push((rep.trade_id, *ev));
            }
        }
        if delivered.is_empty() {
            return fired;
        }
        for (tid, ev) in delivered {
            engine.commit_trade_fire(tid, &ev);
            fired += 1;
        }
    }
}

fn engine_with_default_tiers(threshold: u64) -> ProfitManager {
    match ProfitManager::new(threshold, default_profit_tiers()) {
        Ok(engine) => engine,
        Err(_) => panic!("the stock ladder is well formed"),
    }
}

#[test]
fn default_ladder_values() {
    let tiers = default_profit_tiers();
    assert_eq!(tiers.len(), 4);
    assert_eq!(tiers[0].multiplier, 1_200_000);
    assert_eq!(tiers[0].percentage, 400_000);
    assert_eq!(tiers[1].multiplier, 1_500_000);
    assert_eq!(tiers[1].percentage, 300_000);
    assert_eq!(tiers[2].multiplier, 2_000_000);
    assert_eq!(tiers[2].percentage, 200_000);
    assert_eq!(tiers[3].multiplier, 3_000_000);
    assert_eq!(tiers[3].percentage, 100_000);
}

#[test]
fn engine_id_is_a_hyphenated_identifier() {
    let engine = engine_with_default_tiers(0);
    assert_eq!(engine.get_id().len(), 36);
}

#[test]
fn rejects_descending_ladder() {
    let tiers = vec![
        ProfitTier {
            multiplier: 2_000_000,
            percentage: 200_000,
            gas_buffer: SCALE,
            volatility_adjustment: 0,
        },
        ProfitTier {
            multiplier: 1_200_000,
            percentage: 400_000,
            gas_buffer: SCALE,
            volatility_adjustment: 0,
        },
    ];
    match ProfitManager::new(0, tiers) {
        Err(e) => assert_eq!(e, EngineError::InvalidTier),
        Ok(_) => panic!("descending ladder must be rejected"),
    }
}

#[test]
fn rejects_fractions_summing_above_one() {
    let tiers = vec![
        ProfitTier {
            multiplier: 1_200_000,
            percentage: 700_000,
            gas_buffer: SCALE,
            volatility_adjustment: 0,
        },
        ProfitTier {
            multiplier: 1_500_000,
            percentage: 400_000,
            gas_buffer: SCALE,
            volatility_adjustment: 0,
        },
    ];
    match ProfitManager::new(0, tiers) {
        Err(e) => assert_eq!(e, EngineError::InvalidTier),
        Ok(_) => panic!("oversubscribed ladder must be rejected"),
    }
}

#[test]
fn rejects_zero_entry_price_and_zero_size() {
    let mut engine = engine_with_default_tiers(0);
    let err = engine.add_trade("tok".to_string(), 0, 100 * SCALE, 0).unwrap_err();
    assert_eq!(err, EngineError::InvalidPosition);
    let err = engine.add_trade("tok".to_string(), SCALE, 0, 0).unwrap_err();
    assert_eq!(err, EngineError::InvalidPosition);
    assert!(engine.get_trade_profits(1).is_none());
}

#[test]
fn update_price_recomputes_unrealized() {
    let mut engine = engine_with_default_tiers(0);
    let id = engine.add_trade("tok".to_string(), SCALE, 100 * SCALE, 0).unwrap();
    engine.update_trade_price(id, 1_250_000);
    let t = engine.get_trade_profits(id).unwrap();
    assert_eq!(t.current_price, 1_250_000);
    // 100 units gaining 0.25 each: 25 units of profit.
    assert_eq!(t.unrealized_profits, 25 * SCALE as i128);
    // A price below entry marks a loss.
    engine.update_trade_price(id, 750_000);
    let t = engine.get_trade_profits(id).unwrap();
    assert_eq!(t.unrealized_profits, -(25 * SCALE as i128));
}

/// Entry 1.0, price 1.25, no volatility, no costs: the 1.2x tier is
/// proposed, books 40% of the size once delivered, and the 1.5x tier
/// does not fire on the continued judgment.
#[test]
fn first_tier_fires_at_one_and_a_quarter() {
    let mut engine = engine_with_default_tiers(0);
    let id = engine.add_trade("tok".to_string(), SCALE, 100 * SCALE, 0).unwrap();
    engine.update_trade_price(id, 1_250_000);
    let obs = vec![TickObservation { trade_id: id, volatility: 0 }];
    let reports = engine.check_profit_tiers(&obs, 0);
    assert_eq!(reports.len(), 1);
    let report = &reports[0];
    assert!(report.ticked);
    // The pass stops at the first proposed firing.
    assert_eq!(report.outcomes.len(), 1);
    let ev = match &report.outcomes[0] {
        TierOutcome::Fired(ev) => {
            assert_eq!(ev.tier_multiplier, 1_200_000);
            assert_eq!(ev.sell_amount, 40 * SCALE);
            assert_eq!(ev.estimated_gas, 0);
            // 40 units sold at a gain of 0.25 each.
            assert_eq!(ev.net_profit, 10 * SCALE);
            assert_eq!(ev.min_price, SCALE as u128);
            *ev
        }
        other => panic!("expected the 1.2x tier to fire, got {:?}", other),
    };
    // Nothing is booked until the sale is delivered.
    let t = engine.get_trade_profits(id).unwrap();
    assert_eq!(t.position_size, 100 * SCALE);
    assert_eq!(t.realized_profits, 0);
    assert!(t.profit_tiers_hit.is_empty());
    // Delivered: the firing is booked, and the continued judgment
    // skips every higher tier.
    engine.commit_trade_fire(id, &ev);
    let reports = engine.check_profit_tiers(&obs, 0);
    assert_eq!(reports[0].outcomes.len(), 3);
    assert_eq!(reports[0].outcomes[0], TierOutcome::Skipped(1_500_000, SkipReason::NotTriggered));
    assert_eq!(reports[0].outcomes[1], TierOutcome::Skipped(2_000_000, SkipReason::NotTriggered));
    assert_eq!(reports[0].outcomes[2], TierOutcome::Skipped(3_000_000, SkipReason::NotTriggered));
    let t = engine.get_trade_profits(id).unwrap();
    assert_eq!(t.position_size, 60 * SCALE);
    assert_eq!(t.realized_profits, (10 * SCALE) as u128);
    assert_eq!(t.profit_tiers_hit, vec![1_200_000]);
}

/// A proposed firing whose submission fails or exhausts is simply not
/// committed: the tier stays unfired, the position unchanged, and the
/// next tick proposes the same firing again.
#[test]
fn undelivered_fire_leaves_the_position_unchanged() {
    let mut engine = engine_with_default_tiers(0);
    let id = engine.add_trade("tok".to_string(), SCALE, 100 * SCALE, 0).unwrap();
    engine.update_trade_price(id, 1_250_000);
    let obs = vec![TickObservation { trade_id: id, volatility: 0 }];
    let first = engine.check_profit_tiers(&obs, 0);
    let first_ev = match &first[0].outcomes[0] {
        TierOutcome::Fired(ev) => *ev,
        other => panic!("expected a proposed firing, got {:?}", other),
    };
    // The executor exhausted its retries: no commit happens.
    let t = engine.get_trade_profits(id).unwrap();
    assert_eq!(t.position_size, 100 * SCALE);
    assert_eq!(t.realized_profits, 0);
    assert_eq!(t.gas_fees, 0);
    assert!(t.profit_tiers_hit.is_empty());
    // The next tick re-judges the tier and proposes the same firing.
    let second = engine.check_profit_tiers(&obs, 0);
    match &second[0].outcomes[0] {
        TierOutcome::Fired(ev) => assert_eq!(*ev, first_ev),
        other => panic!("expected the firing to be proposed again, got {:?}", other),
    }
}

/// Same position, but the gas estimate pushes the minimum profitable
/// ratio to 1.3x: the 1.2x tier is skipped as below minimum profit and
/// the size does not change.
#[test]
fn tier_below_minimum_profit_is_skipped() {
    let mut engine = engine_with_default_tiers(0);
    let id = engine.add_trade("tok".to_string(), SCALE, 100 * SCALE, 0).unwrap();
    engine.update_trade_price(id, 1_250_000);
    // costs / (size * entry) = 0.3 exactly, so the floor ratio is 1.3.
    let gas_estimate = 30 * SCALE;
    let obs = vec![TickObservation { trade_id: id, volatility: 0 }];
    let reports = engine.check_profit_tiers(&obs, gas_estimate);
    let report = &reports[0];
    assert_eq!(report.outcomes.len(), 4);
    assert_eq!(
        report.outcomes[0],
        TierOutcome::Skipped(1_200_000, SkipReason::BelowMinimumProfit)
    );
    let t = engine.get_trade_profits(id).unwrap();
    assert_eq!(t.position_size, 100 * SCALE);
    assert_eq!(t.realized_profits, 0);
    assert!(t.profit_tiers_hit.is_empty());
}

/// Volatility 0.5 against a sensitivity of 0.1 discounts the 1.2x
/// trigger to 1.14x, so a price of 1.15 fires the tier even below the
/// nominal multiplier.
#[test]
fn volatility_discounts_the_trigger() {
    let tiers = vec![ProfitTier {
        multiplier: 1_200_000,
        percentage: 400_000,
        gas_buffer: SCALE,
        volatility_adjustment: 100_000,
    }];
    let mut engine = match ProfitManager::new(0, tiers) {
        Ok(engine) => engine,
        Err(_) => panic!("this ladder is well formed"),
    };
    let id = engine.add_trade("tok".to_string(), SCALE, 100 * SCALE, 0).unwrap();
    engine.update_trade_price(id, 1_150_000);
    let obs = vec![TickObservation { trade_id: id, volatility: 500_000 }];
    let reports = engine.check_profit_tiers(&obs, 0);
    match &reports[0].outcomes[0] {
        TierOutcome::Fired(ev) => {
            assert_eq!(ev.tier_multiplier, 1_200_000);
            // 40% of the size, shrunk by half the volatility: 30 units.
            assert_eq!(ev.sell_amount, 30 * SCALE);
            // 30 units sold at a gain of 0.15 each.
            assert_eq!(ev.net_profit, 4_500_000);
        }
        other => panic!("expected the discounted tier to fire, got {:?}", other),
    }
}

/// A price of 1.15 does not reach the undiscounted 1.2x trigger.
#[test]
fn undiscounted_trigger_holds_without_volatility() {
    let tiers = vec![ProfitTier {
        multiplier: 1_200_000,
        percentage: 400_000,
        gas_buffer: SCALE,
        volatility_adjustment: 100_000,
    }];
    let mut engine = match ProfitManager::new(0, tiers) {
        Ok(engine) => engine,
        Err(_) => panic!("this ladder is well formed"),
    };
    let id = engine.add_trade("tok".to_string(), SCALE, 100 * SCALE, 0).unwrap();
    engine.update_trade_price(id, 1_150_000);
    let obs = vec![TickObservation { trade_id: id, volatility: 0 }];
    let reports = engine.check_profit_tiers(&obs, 0);
    assert_eq!(
        reports[0].outcomes[0],
        TierOutcome::Skipped(1_200_000, SkipReason::NotTriggered)
    );
}

/// A firing below the configured profit floor is skipped as
/// insufficient.
#[test]
fn profit_floor_blocks_small_gains() {
    // The 1.2x tier would net 10 units; a floor of 11 units blocks it.
    let mut engine = engine_with_default_tiers(11 * SCALE);
    let id = engine.add_trade("tok".to_string(), SCALE, 100 * SCALE, 0).unwrap();
    engine.update_trade_price(id, 1_250_000);
    let obs = vec![TickObservation { trade_id: id, volatility: 0 }];
    let reports = engine.check_profit_tiers(&obs, 0);
    assert_eq!(
        reports[0].outcomes[0],
        TierOutcome::Skipped(1_200_000, SkipReason::InsufficientNetProfit)
    );
    let t = engine.get_trade_profits(id).unwrap();
    assert_eq!(t.position_size, 100 * SCALE);
}

/// A completed tick (every proposed firing delivered) leaves nothing
/// behind: a further tick under unchanged inputs proposes no firing.
#[test]
fn tick_is_idempotent_under_unchanged_inputs() {
    let mut engine = engine_with_default_tiers(0);
    let id = engine.add_trade("tok".to_string(), SCALE, 100 * SCALE, 0).unwrap();
    engine.update_trade_price(id, 1_250_000);
    let obs = vec![TickObservation { trade_id: id, volatility: 0 }];
    let fired = run_full_tick(&mut engine, &obs, 0);
    assert_eq!(fired, 1);
    let again = engine.check_profit_tiers(&obs, 0);
    for outcome in &again[0].outcomes {
        assert!(
            matches!(outcome, TierOutcome::Skipped(_, _)),
            "a further tick must not fire: {:?}",
            outcome
        );
    }
    let t = engine.get_trade_profits(id).unwrap();
    assert_eq!(t.position_size, 60 * SCALE);
    assert_eq!(t.profit_tiers_hit, vec![1_200_000]);
}

/// A booked tier never fires again, even when the price later reaches
/// it far more comfortably.
#[test]
fn fired_tier_stays_retired() {
    let mut engine = engine_with_default_tiers(0);
    let id = engine.add_trade("tok".to_string(), SCALE, 100 * SCALE, 0).unwrap();
    engine.update_trade_price(id, 1_250_000);
    let obs = vec![TickObservation { trade_id: id, volatility: 0 }];
    run_full_tick(&mut engine, &obs, 0);
    engine.update_trade_price(id, 1_300_000);
    let reports = engine.check_profit_tiers(&obs, 0);
    // The 1.2x tier is retired: only the three higher tiers are judged.
    assert_eq!(reports[0].outcomes.len(), 3);
    let t = engine.get_trade_profits(id).unwrap();
    assert_eq!(t.profit_tiers_hit, vec![1_200_000]);
}

/// Size never grows, banked profit never shrinks, and the fired list
/// only gains entries, across a rising price path.
#[test]
fn position_evolves_monotonically() {
    let mut engine = engine_with_default_tiers(0);
    let id = engine.add_trade("tok".to_string(), SCALE, 100 * SCALE, 0).unwrap();
    let mut last_size = 100 * SCALE;
    let mut last_realized = 0u128;
    let mut last_hits = 0usize;
    let obs = vec![TickObservation { trade_id: id, volatility: 0 }];
    for price in [1_100_000u64, 1_250_000, 1_600_000, 2_100_000, 3_100_000, 2_000_000] {
        engine.update_trade_price(id, price);
        run_full_tick(&mut engine, &obs, 0);
        let t = engine.get_trade_profits(id).unwrap();
        assert!(t.position_size <= last_size);
        assert!(t.realized_profits >= last_realized);
        assert!(t.profit_tiers_hit.len() >= last_hits);
        last_size = t.position_size;
        last_realized = t.realized_profits;
        last_hits = t.profit_tiers_hit.len();
    }
    let t = engine.get_trade_profits(id).unwrap();
    assert_eq!(t.profit_tiers_hit, vec![1_200_000, 1_500_000, 2_000_000, 3_000_000]);
}

/// A position without a volatility reading is skipped for the tick and
/// left untouched.
#[test]
fn missing_observation_skips_the_position() {
    let mut engine = engine_with_default_tiers(0);
    let id = engine.add_trade("tok".to_string(), SCALE, 100 * SCALE, 0).unwrap();
    engine.update_trade_price(id, 1_250_000);
    let obs: Vec<TickObservation> = Vec::new();
    let reports = engine.check_profit_tiers(&obs, 0);
    assert_eq!(reports.len(), 1);
    assert!(!reports[0].ticked);
    assert!(reports[0].outcomes.is_empty());
    let t = engine.get_trade_profits(id).unwrap();
    assert_eq!(t.position_size, 100 * SCALE);
}

#[test]
fn total_profits_sum_banked_and_marked() {
    let mut engine = engine_with_default_tiers(0);
    let a = engine.add_trade("a".to_string(), SCALE, 100 * SCALE, 0).unwrap();
    let b = engine.add_trade("b".to_string(), 2 * SCALE, 50 * SCALE, 0).unwrap();
    engine.update_trade_price(a, 1_250_000);
    engine.update_trade_price(b, 1_500_000);
    // a: +25 units unrealized; b: 50 units losing 0.5 each: -25 units.
    assert_eq!(engine.get_total_profits(), 0);
    let obs = vec![TickObservation { trade_id: a, volatility: 0 }];
    run_full_tick(&mut engine, &obs, 0);
    // a banked 10 units from the 1.2x firing; its stale mark stays.
    assert_eq!(engine.get_total_profits(), 10 * SCALE as i128);
}

#[test]
fn cleanup_drops_only_stale_positions() {
    let mut engine = engine_with_default_tiers(0);
    let old_id = engine.add_trade("old".to_string(), SCALE, 100 * SCALE, 0).unwrap();
    let young = engine
        .add_trade("young".to_string(), SCALE, 100 * SCALE, 90_000_000)
        .unwrap();
    // A day is 86_400_000 ms; at now = 100_000_000 the first position
    // is over the age limit and the second is not.
    engine.cleanup_completed_trades(100_000_000, 86_400_000);
    assert!(engine.get_trade_profits(old_id).is_none());
    assert!(engine.get_trade_profits(young).is_some());
}

#[test]
fn start_and_shutdown_flip_liveness() {
    let mut engine = engine_with_default_tiers(0);
    assert!(!engine.is_active());
    engine.start_monitoring();
    assert!(engine.is_active());
    engine.shutdown();
    assert!(!engine.is_active());
}

#[test]
fn error_descriptions_are_fixed() {
    assert_eq!(EngineError::InvalidPosition.describe(), "invalid position");
    assert_eq!(EngineError::InvalidTier.describe(), "invalid tier");
}

/// A net profit exactly at the floor fires: the floor is inclusive.
#[test]
fn floor_met_exactly_fires() {
    // The 1.2x tier nets exactly 10 units here.
    let mut engine = engine_with_default_tiers(10 * SCALE);
    let id = engine.add_trade("tok".to_string(), SCALE, 100 * SCALE, 0).unwrap();
    engine.update_trade_price(id, 1_250_000);
    let obs = vec![TickObservation { trade_id: id, volatility: 0 }];
    let reports = engine.check_profit_tiers(&obs, 0);
    match &reports[0].outcomes[0] {
        TierOutcome::Fired(ev) => assert_eq!(ev.net_profit, 10 * SCALE),
        other => panic!("a net profit at the floor must fire, got {:?}", other),
    }
}

/// The delivery-gated path: a judged firing is only booked once the
/// submission has succeeded. While the executor keeps failing, the
/// tier stays unfired and the position unchanged; after a delivery the
/// firing is booked exactly once.
#[test]
fn gated_commit_books_only_delivered_sales() {
    let tiers = default_profit_tiers();
    let mut engine = ProfitManager::new(0, tiers.clone()).unwrap_or_else(|_| {
        panic!("the stock ladder is well formed")
    });
    let id = engine.add_trade("tok".to_string(), SCALE, 100 * SCALE, 0).unwrap();
    engine.update_trade_price(id, 1_250_000);

    let snapshot = engine.get_trade_profits(id).unwrap();
    let outcome = evaluate_tier(
        &tiers[0],
        snapshot.position_size,
        snapshot.gas_fees,
        snapshot.entry_price,
        snapshot.current_price,
        0,
        0,
        0,
    );
    let ev = match outcome {
        TierOutcome::Fired(ev) => ev,
        other => panic!("expected a firing to submit, got {:?}", other),
    };

    // Submission exhausted: nothing is booked, the tier stays armed.
    let t = engine.get_trade_profits(id).unwrap();
    assert_eq!(t.position_size, 100 * SCALE);
    assert!(t.profit_tiers_hit.is_empty());

    // Submission delivered: the firing is booked once.
    engine.commit_trade_fire(id, &ev);
    let t = engine.get_trade_profits(id).unwrap();
    assert_eq!(t.position_size, 60 * SCALE);
    assert_eq!(t.realized_profits, (10 * SCALE) as u128);
    assert_eq!(t.profit_tiers_hit, vec![1_200_000]);
}

#[test]
fn snapshots_and_realized_totals_agree() {
    let mut engine = engine_with_default_tiers(0);
    let a = engine.add_trade("a".to_string(), SCALE, 100 * SCALE, 0).unwrap();
    engine.add_trade("b".to_string(), 2 * SCALE, 50 * SCALE, 0).unwrap();
    engine.update_trade_price(a, 1_250_000);
    let obs = vec![TickObservation { trade_id: a, volatility: 0 }];
    run_full_tick(&mut engine, &obs, 0);
    assert_eq!(engine.get_total_realized_profit(), (10 * SCALE) as u128);
    let snapshot = engine.get_open_positions();
    assert_eq!(snapshot.len(), 2);
    assert_eq!(snapshot[0].trade_id, a);
    assert_eq!(snapshot[0].position_size, 60 * SCALE);
    assert_eq!(snapshot[1].position_size, 50 * SCALE);
}
