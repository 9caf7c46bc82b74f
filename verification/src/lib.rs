//! Client-side core for a push-notification service SDK.
//!
//! The crate holds the resilient request execution pipeline shared by every
//! API call — exponential-backoff retry, single-flight request deduplication,
//! a TTL-bounded response cache, a latency metrics collector — together with
//! the explicit state machine and event-stream parser that drive a
//! self-healing streaming subscription. Each component states its behaviour
//! in `requires`/`ensures` contracts, and Verus proves the bodies against
//! them.

pub mod api;
pub mod cache;
pub mod client;
pub mod dedup;
pub mod errors;
pub mod http;
pub mod metrics;
pub mod retry;
pub mod sse;
pub mod strutil;
pub mod types;
