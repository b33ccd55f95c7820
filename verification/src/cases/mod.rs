//! The small libraries the benchmark's review cases are built on. Each is a
//! complete library in its own right, verified like the rest of the crate.

pub mod retry;
pub mod framing;
pub mod tags;
pub mod query;
pub mod throttle;
pub mod ringlog;
pub mod ingest;
pub mod editor;
pub mod admission;
pub mod frames;
pub mod catalog;
