//! Restorable snapshots of a git working tree, and the decisions of a loop
//! that mirrors one working tree into another.
pub mod text;
pub mod checkpoint;
pub mod meta;
pub mod plumbing;
pub mod store;
pub mod runs;
pub mod live_sync;
pub mod git;
pub mod status;
pub mod path_utils;
pub mod workspace;
