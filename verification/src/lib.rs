//! Telemetry subsystem for an agent runtime: structured behavioral events and
//! periodic host-resource samples are funneled through a bounded ingestion
//! queue into a single-writer SQLite store, and later served back by a
//! read-only export path.

pub mod schema;
pub mod ebpf;
pub mod chan;
pub mod sqlio;
pub mod store;
pub mod clock;
pub mod textenc;
pub mod bytescan;
pub mod observer;
pub mod collector;
pub mod embeddings;
pub mod reader;
