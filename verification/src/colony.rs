//! Shared vocabulary of the colony orchestration side: allocation and
//! trade statuses, and the alerts its sentries and rug detector raise.
//!
//! These are plain data; the components that produce and consume them
//! live with the host.

use vstd::prelude::*;

verus! {

/// Where a slice of allocated capital stands.
#[derive(Debug, Clone, Copy, PartialEq, Eq, Structural)]
pub enum AllocationStatus {
    /// The allocation backs an open position.
    Active,
    /// The position was sold; the capital awaits collection.
    Sold,
    /// The capital is free to allocate.
    Available,
}

/// Where a managed trade stands.
#[derive(Debug, Clone, Copy, PartialEq, Eq, Structural)]
pub enum TradeStatus {
    /// The trade is open.
    Active,
    /// The trade was sold.
    Sold,
    /// The trade failed to execute.
    Failed,
}

/// What a rug-pull detector flagged.
#[derive(Debug, Clone, Copy, PartialEq, Eq, Structural)]
pub enum RugAlertType {
    /// The price collapsed.
    PriceDrop,
    /// Trading volume collapsed.
    VolumeDrop,
    /// Pool liquidity collapsed.
    LiquidityDrop,
    /// Holders are leaving.
    HolderCountDrop,
    /// The contract itself looks dangerous.
    ContractRisk,
    /// Selling appears to be blocked.
    HoneypotDetected,
}

/// How bad a rug-pull alert is.
#[derive(Debug, Clone, Copy, PartialEq, Eq, Structural)]
pub enum RugAlertSeverity {
    Low,
    Medium,
    High,
    Critical,
}

/// What a sentry flagged.
#[derive(Debug, Clone, Copy, PartialEq, Eq, Structural)]
pub enum AlertType {
    /// Pool liquidity fell.
    LiquidityDrop,
    /// The price fell.
    PriceDrop,
    /// A rug pull is suspected.
    RugPull,
    /// The contract itself looks dangerous.
    ContractRisk,
    /// The network is misbehaving.
    NetworkIssue,
    /// Sentiment turned negative.
    SentimentNegative,
}

/// How bad a sentry alert is.
#[derive(Debug, Clone, Copy, PartialEq, Eq, Structural)]
pub enum AlertSeverity {
    Low,
    Medium,
    High,
    Critical,
}

} // verus!
