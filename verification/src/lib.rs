//! A minimal in-memory key-value store, partitioned into independently
//! lockable shards, together with the command model and the per-connection
//! dispatch logic of a small network server built around it.
//!
//! The store maps text keys to byte-string values. Every key is routed to
//! exactly one shard by a deterministic hash of its bytes, so per-shard
//! locking is observably equivalent to a single global lock while unrelated
//! keys never contend.

pub mod command;
pub mod laws;
pub mod store;
pub mod worker;
