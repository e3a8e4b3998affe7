//! Coordination primitives for replicated shards: a pool of per-writer
//! logical clocks and a registry of shard transfer tasks.
pub mod clock;
pub mod transfer;
pub mod order_by;
