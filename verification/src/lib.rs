//! Forensic heuristic analysis of how attestations were packed into a
//! sequence of blocks, to infer which block-building client produced each
//! block from structural patterns alone.
//!
//! The pipeline processes blocks in slot order, holding a rolling two-epoch
//! participation state: each block is scored against the pre-block state,
//! classified by a grouping and an ordering predicate, compared against the
//! unverified graffiti label, and only then has its timely participation
//! committed for the blocks that follow.

pub mod accuracy;
pub mod blocks;
pub mod classify;
pub mod graffiti;
pub mod participation;
pub mod pipeline;
pub mod scoring;
pub mod update;
