//! Deduplicating aggregator of relay event streams: a multi-tier
//! deduplication engine, a relay pool with per-relay reconnection state
//! machines, and a distributor that batches admitted events by size and age.
//! The I/O around it (sockets, the durable store, the clock, randomness) is
//! done by the caller, who hands the results in as plain values.
use vstd::prelude::*;

pub mod event_id;
pub mod filter;
pub mod hot_set;
pub mod recency;
pub mod dedup;
pub mod relay;
pub mod pool;
pub mod distributor;
pub mod config;
pub mod state;

verus! {

} // verus!
