//! Session-guarded git worktree workflow: the decisions, the parsers and the
//! rules of the server, with their contracts.

pub mod domain;
pub mod infra;
pub mod interface;
pub mod laws;
pub mod protocol;
pub mod text;
