//! A content-scoring pipeline for ranking filesystem entries.
//!
//! An ordered list of stages, each pairing a content loader with a chain of
//! scorers, narrows and re-ranks a set of entries: every entry is scored by
//! each stage, entries that fail a scorer are filtered out, and survivors are
//! sorted by descending score before the next stage runs.

pub mod args;
pub mod bytes;
pub mod loaders;
pub mod metadata;
pub mod pipeline;
pub mod scorers;
pub mod stage;
pub mod stats;
