//! Core of a per-tenant script execution and scheduling subsystem.
//!
//! Each tenant (a "guild" of the chat platform) owns a set of scripts that run
//! in a sandboxed VM. This library holds the verified logic of the subsystem:
//! the dispatch codec that turns raw platform events into script-facing
//! events, the scheduler and per-tenant runner state machines, the abuse
//! ledger that suspends a misbehaving tenant, the timer/scheduled-task store
//! semantics, and the outbound-gateway decision logic. I/O, RPC transports and
//! the embedded VM live outside this crate.

pub mod abuse;
pub mod codec;
pub mod config;
pub mod errors;
pub mod gateway;
pub mod json;
pub mod rpc;
pub mod runner;
pub mod scheduler;
pub mod timers;

use vstd::prelude::*;

verus! {

/// Milliseconds in the sliding window used by the abuse ledger.
pub const BAD_REQUEST_WINDOW_MS: u64 = 60_000;

/// Capacity of the abuse ledger: number of recent failures kept.
pub const BAD_REQUEST_CAP: usize = 29;

} // verus!
