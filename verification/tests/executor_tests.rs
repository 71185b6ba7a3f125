use exit_pipeline::errors::ExecutionError;
use exit_pipeline::executor::{ProviderReceipt, SubmissionPhase, TransactionHandler};

fn handler(now_ms: u64) -> TransactionHandler {
    TransactionHandler::new(60_000, 3, 100, 1, 1_000, 10_000, now_ms)
}

fn receipt() -> ProviderReceipt {
    ProviderReceipt { signature: vec![7u8; 64], gas_used: 21_000, gas_price: 5 }
}

#[test]
fn priority_fee_is_clamped_to_the_band() {
    let h = handler(0);
    assert_eq!(h.calculate_priority_fee(0), 1_000);
    assert_eq!(h.calculate_priority_fee(999), 1_000);
    assert_eq!(h.calculate_priority_fee(1_000), 1_000);
    assert_eq!(h.calculate_priority_fee(4_321), 4_321);
    assert_eq!(h.calculate_priority_fee(10_000), 10_000);
    assert_eq!(h.calculate_priority_fee(1_000_000), 10_000);
}

#[test]
fn bundle_wraps_one_transaction() {
    let h = handler(0);
    let b = h.make_bundle(vec![1, 2, 3], 50_000, 777);
    assert_eq!(b.transactions.len(), 1);
    assert_eq!(b.transactions[0], vec![1, 2, 3]);
    assert_eq!(b.priority_fee, 10_000);
    assert_eq!(b.timestamp_ms, 777);
}

/// The primary fails, the fallback delivers within the same attempt:
/// the result reports success, its latency spans both attempts, and no
/// backoff sleep was consumed.
#[test]
fn fallback_succeeds_within_the_same_attempt() {
    let mut h = handler(0);
    let mut s = h.begin_submission(1_000);
    assert_eq!(s.phase, SubmissionPhase::TryPrimary);
    h.on_primary_failure(&mut s);
    assert_eq!(s.phase, SubmissionPhase::TryFallback);
    assert_eq!(s.attempt, 0);
    let r = h.complete_success(&mut s, receipt(), 1_250);
    assert!(r.success);
    assert!(r.error.is_none());
    assert_eq!(r.execution_time_ms, 250);
    assert_eq!(r.signature, vec![7u8; 64]);
    assert_eq!(r.gas_used, 21_000);
    assert_eq!(r.gas_price, 5);
    assert_eq!(s.phase, SubmissionPhase::Succeeded);
}

/// Both providers fail for all three allowed attempts: the call ends
/// in exhaustion, with the primary tried only while its cached health
/// held, and linearly growing backoffs in between.
#[test]
fn exhaustion_after_three_failed_attempts() {
    let mut h = handler(0);
    let mut s = h.begin_submission(0);
    assert_eq!(s.phase, SubmissionPhase::TryPrimary);
    h.on_primary_failure(&mut s);
    assert_eq!(s.phase, SubmissionPhase::TryFallback);
    assert_eq!(h.on_fallback_failure(&mut s), None);
    assert_eq!(s.phase, SubmissionPhase::Backoff);
    assert_eq!(h.backoff_delay_ms(&s), 100);
    h.backoff_done(&mut s);
    // The primary's cached health is off, so the fallback is next.
    assert_eq!(s.phase, SubmissionPhase::TryFallback);
    assert_eq!(h.on_fallback_failure(&mut s), None);
    assert_eq!(h.backoff_delay_ms(&s), 200);
    h.backoff_done(&mut s);
    assert_eq!(s.phase, SubmissionPhase::TryFallback);
    let err = h.on_fallback_failure(&mut s);
    assert_eq!(err, Some(ExecutionError::ExecutionExhausted));
    assert_eq!(s.phase, SubmissionPhase::Exhausted);
    assert_eq!(s.attempt, 3);
}

/// A recorded recovery of the primary makes the next attempt try it
/// first again.
#[test]
fn recovered_primary_is_tried_again() {
    let mut h = handler(0);
    let mut s = h.begin_submission(0);
    h.on_primary_failure(&mut s);
    h.on_fallback_failure(&mut s);
    assert_eq!(s.phase, SubmissionPhase::Backoff);
    // The probe interval has passed; the host probes and finds it up.
    assert!(h.health_check_due(60_000));
    h.record_health_check(true, 60_000);
    h.backoff_done(&mut s);
    assert_eq!(s.phase, SubmissionPhase::TryPrimary);
}

#[test]
fn health_probe_honors_the_interval() {
    let mut h = handler(0);
    assert!(!h.health_check_due(59_999));
    assert!(h.health_check_due(60_000));
    h.record_health_check(false, 60_000);
    assert!(!h.health_check_due(119_999));
    assert!(h.health_check_due(120_000));
}

#[test]
fn unavailable_primary_is_skipped_from_the_start() {
    let mut h = handler(0);
    h.record_health_check(false, 0);
    let s = h.begin_submission(5);
    assert_eq!(s.phase, SubmissionPhase::TryFallback);
    assert_eq!(s.started_at_ms, 5);
}

#[test]
fn zero_retry_budget_exhausts_immediately() {
    let h = TransactionHandler::new(60_000, 0, 100, 1, 1_000, 10_000, 0);
    let s = h.begin_submission(0);
    assert_eq!(s.phase, SubmissionPhase::Exhausted);
}

#[test]
fn execution_error_description_is_fixed() {
    assert_eq!(ExecutionError::ExecutionExhausted.describe(), "execution exhausted");
    assert_eq!(ExecutionError::BundleRejected.describe(), "bundle rejected");
}

/// An empty or oversized bundle is refused before any submission, so
/// no retry is consumed by it.
#[test]
fn malformed_bundles_are_rejected_before_submission() {
    let h = handler(0);
    let empty = exit_pipeline::executor::TransactionBundle {
        transactions: vec![],
        priority_fee: 1_000,
        timestamp_ms: 0,
    };
    assert_eq!(h.validate_bundle(&empty), Err(ExecutionError::BundleRejected));
    let oversized = exit_pipeline::executor::TransactionBundle {
        transactions: vec![vec![1], vec![2]],
        priority_fee: 1_000,
        timestamp_ms: 0,
    };
    assert_eq!(h.validate_bundle(&oversized), Err(ExecutionError::BundleRejected));
    let fine = h.make_bundle(vec![1, 2, 3], 2_000, 0);
    assert_eq!(h.validate_bundle(&fine), Ok(()));
}
