//! Counters and redacted operational snapshots.

pub mod diagnostics;
pub mod metrics;
