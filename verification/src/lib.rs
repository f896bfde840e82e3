//! Buffered ingestion of market-data events.
//!
//! Events arrive from a message bus, accumulate in an in-memory [`buffer::Buffer`]
//! per event kind, and are flushed in bulk batches to a relational store. The
//! flush path deduplicates each batch by identity key (most recently arrived
//! event wins), performs an idempotent primary upsert plus an append-only backup
//! write, and re-queues the batch when the primary write fails so that no event
//! is lost to a transient outage. Shutdown triggers one final drain of whatever
//! is still buffered.

pub mod buffer;
pub mod config;
pub mod dedup;
pub mod ingest;
pub mod laws;
pub mod models;
pub mod scheduler;
pub mod store;
pub mod text;
pub mod time;
pub mod writer;
