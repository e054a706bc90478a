//! Cache-invalidation fanout coordinator.
//!
//! A purge/ban instruction names a tier (a pool of cache nodes) or all tiers.
//! Admission is decided by a token bucket, targets are resolved from a node
//! registry, and the per-node outcomes are folded into one aggregate result.
//! The network dispatch itself is left to the surrounding binary; this crate
//! holds the decisions: admission, resolution, and aggregation.

pub mod bucket;
pub mod fanout;
pub mod ingest;
pub mod laws;
pub mod numfmt;
pub mod registry;
pub mod transcode;
