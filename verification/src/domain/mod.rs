//! The values that the workflow speaks of.

pub mod error;
pub mod session;
pub mod worktree;
