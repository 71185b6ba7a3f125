//! Messages passed between components: trade signals and liquidity
//! alerts.
//!
//! Plain data; the queue that carries them lives with the host.

use vstd::prelude::*;

verus! {

/// What a signal asks to be done with a token.
#[derive(Debug, Clone, Copy, PartialEq, Eq, Structural)]
pub enum TradeAction {
    Buy,
    Sell,
    Hold,
}

/// What a liquidity monitor flagged.
#[derive(Debug, Clone, Copy, PartialEq, Eq, Structural)]
pub enum AlertType {
    /// Liquidity is below the configured floor.
    LowLiquidity,
    /// Liquidity fell sharply.
    LiquidityDrop,
    /// Liquidity rose sharply.
    LiquiditySurge,
}

/// How urgent a liquidity alert is.
#[derive(Debug, Clone, Copy, PartialEq, Eq, Structural)]
pub enum AlertSeverity {
    High,
    Medium,
    Low,
}

} // verus!
