//! An in-memory quorum-certification engine: a fixed validator set votes in
//! two phases (precommit, commit) on proposed blocks, and a block is finalized
//! once both phases reach a two-thirds-plus-one supermajority.

pub mod api;
pub mod digest;
pub mod engine;
pub mod entropy;
pub mod handle;
