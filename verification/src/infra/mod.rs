//! What the tools are made of: the git operations, the session records and the
//! settings of the log.

pub mod git;
pub mod observability;
pub mod session_store;
