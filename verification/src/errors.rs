//! Error taxonomy of the exit pipeline.
//!
//! Input errors reject a call at its boundary without mutating state.
//! `ExecutionExhausted` is the one terminal failure of the transaction
//! executor: both providers failed for every allowed attempt.

use vstd::prelude::*;

verus! {

/// Rejections raised by the profit-tier engine at its call boundary.
#[derive(Debug, Clone, Copy, PartialEq, Eq, Structural)]
pub enum EngineError {
    /// A position was offered with a zero or out-of-range entry price or size.
    InvalidPosition,
    /// A tier ladder was offered that is malformed: an invalid field, a
    /// ladder not strictly ascending, fractions summing above one, or
    /// more tiers than the engine accepts.
    InvalidTier,
}

/// Terminal failures of the transaction executor.
#[derive(Debug, Clone, Copy, PartialEq, Eq, Structural)]
pub enum ExecutionError {
    /// Every allowed attempt failed on both providers.
    ExecutionExhausted,
    /// The bundle was refused before any submission: empty, or larger
    /// than the configured bundle capacity. No retry is consumed.
    BundleRejected,
}

impl EngineError {
    /// A fixed human-readable name for the error.
    pub fn describe(&self) -> (r: &'static str)
        ensures
            *self is InvalidPosition ==> r@ == "invalid position"@,
            *self is InvalidTier ==> r@ == "invalid tier"@,
    {
        match self {
            EngineError::InvalidPosition => "invalid position",
            EngineError::InvalidTier => "invalid tier",
        }
    }
}

impl ExecutionError {
    /// A fixed human-readable name for the error.
    pub fn describe(&self) -> (r: &'static str)
        ensures
            *self is ExecutionExhausted ==> r@ == "execution exhausted"@,
            *self is BundleRejected ==> r@ == "bundle rejected"@,
    {
        match self {
            ExecutionError::ExecutionExhausted => "execution exhausted",
            ExecutionError::BundleRejected => "bundle rejected",
        }
    }
}

} // verus!
