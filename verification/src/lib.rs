//! Verified core of a rollup full node's block-synchronization and serving
//! subsystem: the iteration engine that answers peer sync requests, the
//! per-block data handlers, the hash chain used for class hashes, the
//! mapping of gateway traces, and the re-execution cross-check.
pub mod chain;
pub mod class;
pub mod data;
pub mod felt;
pub mod handlers;
pub mod protocol;
pub mod reexec;
pub mod rpc;
pub mod store;
pub mod trace;
pub mod wire;
