//! Recursive file hashing.
//!
//! A breadth-first work queue classifies input paths, expands directories,
//! and digests each regular file's byte stream with SHA-512/256, while
//! keeping progress counters. The queue engine and all of its bookkeeping
//! are verified; the surrounding process (filesystem probes, stream reads,
//! terminal rendering) observes the filesystem and feeds the engine.

pub mod digest;
pub mod encoding;
pub mod engine;
pub mod hash;
