//! Core of a single-node Ethereum-compatible execution engine.
//!
//! The engine executes transactions against a pluggable EVM, detects state
//! conflicts against a layered storage, assembles blocks, and commits them
//! atomically. This crate holds the verified substrate: the value types, the
//! two-tier storage (a per-block temporary overlay in front of a permanent
//! point-in-time store), the miner, and the executor's orchestration logic.

pub mod block;
pub mod clock;
pub mod codec;
pub mod evm;
pub mod external;
pub mod execution;
pub mod executor;
pub mod miner;
pub mod permanent;
pub mod permanent_inmemory;
pub mod primitives;
pub mod stratus_storage;
pub mod temporary;
pub mod transaction;
