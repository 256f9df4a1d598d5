//! Review-queue engine: a local review-notification coordinator's core.
//!
//! External processes post short-lived "needs review" events; a human
//! consumes them later. This crate holds the engine itself: ingestion with
//! terminal-coordinate deduplication, durable monotonic sequencing, ordered
//! consumption, a bounded completed archive with paged reads, and the
//! summary projection for a tray-style display. All I/O (HTTP endpoint,
//! snapshot files, the terminal-focus action) lives outside the engine and
//! hands it plain values.

pub mod archive;
pub mod engine;
pub mod item;
pub mod sequencer;
pub mod settings;
pub mod store;
pub mod summary;
pub mod text;
