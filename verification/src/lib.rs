//! A content-addressed catalog builder for directory trees of audio files.
//!
//! The library holds the verified core of the scanner: the extension filter,
//! the deterministic candidate ordering, the streaming content hasher, the
//! metadata normalizer, the batch writer with its flush triggers, and the
//! checkpointed scan state machine that survives interruption and resumes
//! strictly after the last committed path.

pub mod batch;
pub mod catalog;
pub mod hashing;
pub mod metadata;
pub mod models;
pub mod order;
pub mod paths;
pub mod scan;
pub mod select;
