//! A verified position-exit pipeline: tiered, cost-aware profit taking
//! and fault-tolerant transaction execution.
//!
//! The `engine` judges open positions against a ladder of profit tiers
//! on every tick; the `executor` turns an approved sale into a
//! submitted transaction through a primary and a fallback provider
//! with bounded retries. All decision rules are verified; the host
//! supplies prices, clocks, randomness and the network.

pub mod colony;
pub mod engine;
pub mod errors;
pub mod evaluate;
pub mod executor;
pub mod fixed;
pub mod laws;
pub mod logging;
pub mod position;
pub mod rpc_settings;
pub mod signals;
pub mod sniping;
pub mod tiers;
