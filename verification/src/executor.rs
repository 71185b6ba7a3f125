//! The transaction executor: a bounded-retry, primary/fallback
//! submission state machine.
//!
//! The handler owns the submission policy and the cached health of the
//! low-latency primary provider. The network itself stays with the
//! host: the host performs each submission, sleep and health probe the
//! machine asks for and feeds the outcome back in. Every rule — when
//! the fallback is tried, how the attempt counter moves, how long a
//! backoff lasts, when the call is exhausted — is decided here, in
//! verified code, so the host loop has nothing left to get wrong but
//! the plumbing.

use vstd::prelude::*;

use crate::errors::ExecutionError;

verus! {

/// One or more serialized transactions submitted together under one
/// priority fee. Built fresh per logical trade; immutable once built.
#[derive(Debug, Clone)]
pub struct TransactionBundle {
    /// Serialized transactions, opaque to the executor.
    pub transactions: Vec<Vec<u8>>,
    /// Priority fee for the bundle, already clamped to the configured
    /// band.
    pub priority_fee: u64,
    /// When the bundle was built, in milliseconds.
    pub timestamp_ms: u64,
}

/// What a provider reports for an accepted submission.
#[derive(Debug, Clone)]
pub struct ProviderReceipt {
    /// Signature or identifier the provider assigned.
    pub signature: Vec<u8>,
    /// Gas the execution consumed.
    pub gas_used: u64,
    /// Gas price actually paid.
    pub gas_price: u64,
}

/// The single terminal result of one executed submission.
#[derive(Debug, Clone)]
pub struct TransactionResult {
    /// Signature from whichever provider succeeded.
    pub signature: Vec<u8>,
    /// Whether the submission was delivered.
    pub success: bool,
    /// Classification of the failure, when there was one.
    pub error: Option<ExecutionError>,
    /// Wall-clock time from the start of the submission to its end,
    /// spanning every attempt on both providers.
    pub execution_time_ms: u64,
    /// Gas the execution consumed.
    pub gas_used: u64,
    /// Gas price actually paid.
    pub gas_price: u64,
}

/// Where one submission stands.
#[derive(Debug, Clone, Copy, PartialEq, Eq, Structural)]
pub enum SubmissionPhase {
    /// Submit the bundle through the primary provider.
    TryPrimary,
    /// Submit the bundle through the fallback provider.
    TryFallback,
    /// Sleep for the linear backoff, then resume.
    Backoff,
    /// Delivered; a result has been issued.
    Succeeded,
    /// Every allowed attempt failed on both providers.
    Exhausted,
}

/// The state of one submission call, driven step by step by the host.
#[derive(Debug, Clone, Copy, PartialEq, Eq, Structural)]
pub struct BundleSubmission {
    /// What the host must do next.
    pub phase: SubmissionPhase,
    /// Completed failed attempts: one per fallback failure.
    pub attempt: u32,
    /// When the submission started, for the latency of the terminal
    /// result.
    pub started_at_ms: u64,
}

/// A fee clamped into the configured band.
pub open spec fn spec_clamped_fee(hint: int, min: int, max: int) -> int {
    if hint < min {
        min
    } else if hint > max {
        max
    } else {
        hint
    }
}

/// The submission policy and the cached primary-provider health.
pub struct TransactionHandler {
    is_jito_available: bool,
    last_jito_check_ms: u64,
    jito_check_interval_ms: u64,
    max_retries: u32,
    retry_delay_ms: u64,
    bundle_size: usize,
    min_priority_fee: u64,
    max_priority_fee: u64,
}

impl BundleSubmission {
    /// Machine invariant relative to the configured retry budget: the
    /// attempt counter never passes the budget, a live phase still has
    /// an attempt left, and exhaustion means the budget is spent.
    pub open spec fn inv(self, max_retries: u32) -> bool {
        &&& self.attempt <= max_retries
        &&& (self.phase is TryPrimary || self.phase is TryFallback || self.phase is Backoff)
            ==> self.attempt < max_retries
        &&& self.phase is Exhausted ==> self.attempt == max_retries
    }
}

impl TransactionHandler {
    /// Whether the cached health flag says the primary provider is
    /// usable.
    pub closed spec fn primary_available(self) -> bool {
        self.is_jito_available
    }

    /// When the primary's health was last probed.
    pub closed spec fn last_check_ms(self) -> u64 {
        self.last_jito_check_ms
    }

    /// How often the primary's health may be probed.
    pub closed spec fn check_interval_ms(self) -> u64 {
        self.jito_check_interval_ms
    }

    /// The retry budget of one submission call.
    pub closed spec fn spec_max_retries(self) -> u32 {
        self.max_retries
    }

    /// The base backoff delay; attempt `k` sleeps `k` times this.
    pub closed spec fn spec_retry_delay_ms(self) -> u64 {
        self.retry_delay_ms
    }

    /// Most transactions accepted into one bundle.
    pub closed spec fn spec_bundle_size(self) -> usize {
        self.bundle_size
    }

    /// Lower end of the priority-fee band.
    pub closed spec fn spec_min_priority_fee(self) -> u64 {
        self.min_priority_fee
    }

    /// Upper end of the priority-fee band.
    pub closed spec fn spec_max_priority_fee(self) -> u64 {
        self.max_priority_fee
    }

    /// Builds a handler. The fee band must be ordered, and the base
    /// delay is capped so that no linear backoff can overflow a
    /// millisecond counter.
    pub fn new(
        jito_check_interval_ms: u64,
        max_retries: u32,
        retry_delay_ms: u64,
        bundle_size: usize,
        min_priority_fee: u64,
        max_priority_fee: u64,
        now_ms: u64,
    ) -> (r: TransactionHandler)
        requires
            min_priority_fee <= max_priority_fee,
            retry_delay_ms <= 1_000_000_000,
        ensures
            r.primary_available(),
            r.last_check_ms() == now_ms,
            r.check_interval_ms() == jito_check_interval_ms,
            r.spec_max_retries() == max_retries,
            r.spec_retry_delay_ms() == retry_delay_ms,
            r.spec_bundle_size() == bundle_size,
            r.spec_min_priority_fee() == min_priority_fee,
            r.spec_max_priority_fee() == max_priority_fee,
            r.wf(),
    {
        TransactionHandler {
            is_jito_available: true,
            last_jito_check_ms: now_ms,
            jito_check_interval_ms,
            max_retries,
            retry_delay_ms,
            bundle_size,
            min_priority_fee,
            max_priority_fee,
        }
    }

    /// Handler invariant: the fee band is ordered and the base delay
    /// small enough that every linear backoff fits in a `u64`.
    pub closed spec fn wf(self) -> bool {
        &&& self.min_priority_fee <= self.max_priority_fee
        &&& self.retry_delay_ms <= 1_000_000_000
    }

    /// Bounds a fee recommendation into the configured band.
    pub fn calculate_priority_fee(&self, network_hint: u64) -> (r: u64)
        requires
            self.wf(),
        ensures
            r == spec_clamped_fee(
                network_hint as int,
                self.spec_min_priority_fee() as int,
                self.spec_max_priority_fee() as int,
            ),
            self.spec_min_priority_fee() <= r <= self.spec_max_priority_fee(),
    {
        if network_hint < self.min_priority_fee {
            self.min_priority_fee
        } else if network_hint > self.max_priority_fee {
            self.max_priority_fee
        } else {
            network_hint
        }
    }

    /// Wraps one serialized transaction into a single-transaction
    /// bundle under a clamped priority fee.
    pub fn make_bundle(&self, transaction: Vec<u8>, network_hint: u64, now_ms: u64) -> (b:
        TransactionBundle)
        requires
            self.wf(),
        ensures
            b.transactions@.len() == 1,
            b.transactions@[0] == transaction,
            b.priority_fee == spec_clamped_fee(
                network_hint as int,
                self.spec_min_priority_fee() as int,
                self.spec_max_priority_fee() as int,
            ),
            b.timestamp_ms == now_ms,
    {
        let priority_fee = self.calculate_priority_fee(network_hint);
        let mut transactions: Vec<Vec<u8>> = Vec::new();
        transactions.push(transaction);
        TransactionBundle { transactions, priority_fee, timestamp_ms: now_ms }
    }

    /// Pre-submission screening: an empty bundle or one over the
    /// configured capacity is rejected here, before any provider is
    /// tried, so such a rejection never consumes a retry.
    pub fn validate_bundle(&self, bundle: &TransactionBundle) -> (r: Result<(), ExecutionError>)
        ensures
            r is Ok <==> 1 <= bundle.transactions@.len() <= self.spec_bundle_size(),
            r is Err ==> r->Err_0 == ExecutionError::BundleRejected,
    {
        if bundle.transactions.len() == 0 || bundle.transactions.len() > self.bundle_size {
            Err(ExecutionError::BundleRejected)
        } else {
            Ok(())
        }
    }

    /// Whether the primary's health is due for a probe: at least the
    /// configured interval has passed since the last one. Between
    /// probes the cached flag stands, so an outage cannot add a probe
    /// to every trade.
    pub fn health_check_due(&self, now_ms: u64) -> (r: bool)
        ensures
            r == (now_ms >= self.last_check_ms() + self.check_interval_ms()),
    {
        now_ms >= self.last_jito_check_ms && now_ms - self.last_jito_check_ms
            >= self.jito_check_interval_ms
    }

    /// Records the outcome of a health probe the host just performed.
    pub fn record_health_check(&mut self, available: bool, now_ms: u64)
        ensures
            final(self).primary_available() == available,
            final(self).last_check_ms() == now_ms,
            final(self).check_interval_ms() == old(self).check_interval_ms(),
            final(self).spec_max_retries() == old(self).spec_max_retries(),
            final(self).spec_retry_delay_ms() == old(self).spec_retry_delay_ms(),
            final(self).spec_bundle_size() == old(self).spec_bundle_size(),
            final(self).spec_min_priority_fee() == old(self).spec_min_priority_fee(),
            final(self).spec_max_priority_fee() == old(self).spec_max_priority_fee(),
            old(self).wf() ==> final(self).wf(),
    {
        self.is_jito_available = available;
        self.last_jito_check_ms = now_ms;
    }

    /// Starts one submission call. With the primary cached healthy it
    /// is tried first; otherwise the fallback is tried straight away.
    /// A zero retry budget exhausts immediately.
    pub fn begin_submission(&self, now_ms: u64) -> (s: BundleSubmission)
        ensures
            s.attempt == 0,
            s.started_at_ms == now_ms,
            s.phase == if self.spec_max_retries() == 0 {
                SubmissionPhase::Exhausted
            } else if self.primary_available() {
                SubmissionPhase::TryPrimary
            } else {
                SubmissionPhase::TryFallback
            },
            s.inv(self.spec_max_retries()),
    {
        let phase = if self.max_retries == 0 {
            SubmissionPhase::Exhausted
        } else if self.is_jito_available {
            SubmissionPhase::TryPrimary
        } else {
            SubmissionPhase::TryFallback
        };
        BundleSubmission { phase, attempt: 0, started_at_ms: now_ms }
    }

    /// The primary rejected or failed the submission: its cached
    /// health flips off until the next probe, and the fallback is
    /// tried within the same attempt, with no sleep in between.
    pub fn on_primary_failure(&mut self, s: &mut BundleSubmission)
        requires
            old(s).phase is TryPrimary,
        ensures
            !final(self).primary_available(),
            final(self).last_check_ms() == old(self).last_check_ms(),
            final(self).check_interval_ms() == old(self).check_interval_ms(),
            final(self).spec_max_retries() == old(self).spec_max_retries(),
            final(self).spec_retry_delay_ms() == old(self).spec_retry_delay_ms(),
            final(self).spec_bundle_size() == old(self).spec_bundle_size(),
            final(self).spec_min_priority_fee() == old(self).spec_min_priority_fee(),
            final(self).spec_max_priority_fee() == old(self).spec_max_priority_fee(),
            old(self).wf() ==> final(self).wf(),
            final(s).phase is TryFallback,
            final(s).attempt == old(s).attempt,
            final(s).started_at_ms == old(s).started_at_ms,
            old(s).inv(old(self).spec_max_retries()) ==> final(s).inv(
                final(self).spec_max_retries(),
            ),
    {
        self.is_jito_available = false;
        s.phase = SubmissionPhase::TryFallback;
    }

    /// The fallback failed too, completing one attempt. With budget
    /// left the machine backs off; with the budget spent the call is
    /// exhausted and the error is returned.
    pub fn on_fallback_failure(&self, s: &mut BundleSubmission) -> (r: Option<ExecutionError>)
        requires
            old(s).phase is TryFallback,
            old(s).inv(self.spec_max_retries()),
        ensures
            final(s).attempt == old(s).attempt + 1,
            final(s).started_at_ms == old(s).started_at_ms,
            final(s).inv(self.spec_max_retries()),
            final(s).attempt < self.spec_max_retries() ==> final(s).phase is Backoff && r
                is None,
            final(s).attempt == self.spec_max_retries() ==> final(s).phase is Exhausted && r
                == Some(ExecutionError::ExecutionExhausted),
    {
        s.attempt = s.attempt + 1;
        if s.attempt < self.max_retries {
            s.phase = SubmissionPhase::Backoff;
            None
        } else {
            s.phase = SubmissionPhase::Exhausted;
            Some(ExecutionError::ExecutionExhausted)
        }
    }

    /// How long the current backoff lasts: the base delay times the
    /// number of failed attempts, growing linearly.
    pub fn backoff_delay_ms(&self, s: &BundleSubmission) -> (r: u64)
        requires
            self.wf(),
            s.phase is Backoff,
            s.inv(self.spec_max_retries()),
        ensures
            r == s.attempt * self.spec_retry_delay_ms(),
    {
        proof {
            crate::fixed::lemma_mul_bound(
                s.attempt as int,
                self.retry_delay_ms as int,
                u32::MAX as int,
                1_000_000_000,
            );
        }
        (s.attempt as u64) * self.retry_delay_ms
    }

    /// The backoff has elapsed: the next attempt starts, trying the
    /// primary again exactly when its cached health says it is back.
    pub fn backoff_done(&self, s: &mut BundleSubmission)
        requires
            old(s).phase is Backoff,
            old(s).inv(self.spec_max_retries()),
        ensures
            final(s).attempt == old(s).attempt,
            final(s).started_at_ms == old(s).started_at_ms,
            final(s).phase == if self.primary_available() {
                SubmissionPhase::TryPrimary
            } else {
                SubmissionPhase::TryFallback
            },
            final(s).inv(self.spec_max_retries()),
    {
        s.phase = if self.is_jito_available {
            SubmissionPhase::TryPrimary
        } else {
            SubmissionPhase::TryFallback
        };
    }

    /// A provider accepted the submission: the one terminal result of
    /// the call is issued, its latency spanning every attempt on both
    /// providers since the submission began.
    pub fn complete_success(
        &self,
        s: &mut BundleSubmission,
        receipt: ProviderReceipt,
        now_ms: u64,
    ) -> (r: TransactionResult)
        requires
            old(s).phase is TryPrimary || old(s).phase is TryFallback,
            now_ms >= old(s).started_at_ms,
        ensures
            final(s).phase is Succeeded,
            final(s).attempt == old(s).attempt,
            final(s).started_at_ms == old(s).started_at_ms,
            r.signature == receipt.signature,
            r.success,
            r.error is None,
            r.execution_time_ms == now_ms - old(s).started_at_ms,
            r.gas_used == receipt.gas_used,
            r.gas_price == receipt.gas_price,
    {
        s.phase = SubmissionPhase::Succeeded;
        TransactionResult {
            signature: receipt.signature,
            success: true,
            error: None,
            execution_time_ms: now_ms - s.started_at_ms,
            gas_used: receipt.gas_used,
            gas_price: receipt.gas_price,
        }
    }
}

} // verus!
