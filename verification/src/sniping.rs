//! Shared vocabulary of the coin-scanning and buying side.
//!
//! Plain data; the scanner and buy engine live with the host.

use vstd::prelude::*;

verus! {

/// Where a buy order stands.
#[derive(Debug, Clone, Copy, PartialEq, Eq, Structural)]
pub enum TradeStatus {
    /// Queued, not yet sent.
    Pending,
    /// Being submitted.
    Executing,
    /// Confirmed on chain.
    Completed,
    /// Rejected or dropped.
    Failed,
}

/// What an audit concluded about a token's contract.
#[derive(Debug, Clone, Copy, PartialEq, Eq, Structural)]
pub enum ContractAuditStatus {
    /// Source verified and nothing alarming found.
    Verified,
    /// No verified source available.
    Unverified,
    /// Buying works but selling is blocked.
    Honeypot,
    /// Liquidity was pulled.
    Rugged,
}

} // verus!
