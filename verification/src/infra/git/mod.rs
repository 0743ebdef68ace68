//! The git operations. Each asks for the commands it needs, one at a time, and
//! reads what they print.

pub mod branch;
pub mod inspect;
pub mod path;
pub mod remote;
pub mod working;
pub mod worktree;

pub use self::branch::{branch_delete, merge};
pub use self::inspect::{
    branch_status, is_pushed, reset_target, tag_pushed, unpushed_commits, worktree_state,
};
pub use self::remote::{fetch, remote_list, validate_refspec, validate_remote_name};
pub use self::working::{commit, diff, log, reset, status, DiffOptions};
pub use self::worktree::{worktree_add, worktree_add_impl, worktree_list, worktree_remove};
