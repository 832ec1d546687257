//! Core of a benchmarking harness for external command-line tools: index
//! sharding for a fixed pool of workers, sequential trial running, size
//! statistics, artifact naming and cleanup decisions.
//!
//! Everything here computes on plain values. Launching processes, touching
//! the filesystem and persisting records are left to the caller, which feeds
//! the observed outcomes back into the state machines of this crate.

pub mod shard;
pub mod ratio;
pub mod stats;
pub mod text;
pub mod command;
pub mod images;
pub mod rng;
pub mod worker;
pub mod trial;
pub mod metrics;
pub mod archive;
pub mod cleanup;
pub mod args;
pub mod record;
