//! Configuration of the RPC providers the host connects through.
//!
//! Plain data read from configuration by the host; the pools and
//! clients built from it live with the host.

use vstd::prelude::*;

verus! {

/// The execution providers the system knows.
#[derive(Debug, Clone, Copy, PartialEq, Eq, Structural)]
pub enum RpcProvider {
    /// General-purpose provider, used as fallback.
    Helius,
    /// Alternative general-purpose provider.
    Triton,
    /// Low-latency priority provider, tried first.
    Jito,
}

/// The URLs one provider is reachable under.
#[derive(Debug, Clone, PartialEq, Eq)]
pub struct RpcEndpoint {
    pub mainnet: String,
    pub devnet: String,
    pub testnet: String,
}

/// Which provider serves which duty, and how fallback behaves.
#[derive(Debug, Clone, PartialEq, Eq)]
pub struct RpcStrategy {
    /// Provider name used for monitoring reads.
    pub monitoring: String,
    /// Provider name used for trading submissions.
    pub trading: String,
    /// Provider name used when protection from front-running matters.
    pub mev_protection: String,
    /// Provider tried first for everything else.
    pub primary_rpc: String,
    /// Providers tried in order when the primary fails.
    pub fallback_rpcs: Vec<String>,
    /// Base delay between fallback attempts.
    pub retry_delay_ms: u64,
    /// Most fallback attempts per call.
    pub max_fallback_attempts: u32,
}

/// The full provider configuration.
#[derive(Debug, Clone, PartialEq, Eq)]
pub struct RpcConfig {
    pub helius: RpcEndpoint,
    pub triton: RpcEndpoint,
    pub jito: RpcEndpoint,
    pub rpc_strategy: RpcStrategy,
}

} // verus!
