//! What can go wrong.

use vstd::prelude::*;
use vstd::string::*;

verus! {

/// Why an operation did not succeed.
#[derive(Debug, Clone, PartialEq, Eq)]
pub enum DomainError {
    /// The worktree belongs to another session.
    SessionMismatch { worktree: String, owner: String, caller: String },
    /// No worktree of that name.
    WorktreeNotFound(String),
    /// A worktree of that name is already there.
    WorktreeAlreadyExists(String),
    /// No branch of that name.
    BranchNotFound(String),
    /// What git, or a check before it, had to say.
    Git(String),
    /// What the operating system had to say.
    Io(String),
    /// The session file could not be locked.
    Lock(String),
}

/// A [`DomainError`] over character sequences.
pub enum DomainErrorView {
    SessionMismatch { worktree: Seq<char>, owner: Seq<char>, caller: Seq<char> },
    WorktreeNotFound(Seq<char>),
    WorktreeAlreadyExists(Seq<char>),
    BranchNotFound(Seq<char>),
    Git(Seq<char>),
    Io(Seq<char>),
    Lock(Seq<char>),
}

impl DeepView for DomainError {
    type V = DomainErrorView;

    open spec fn deep_view(&self) -> DomainErrorView {
        match self {
            DomainError::SessionMismatch { worktree, owner, caller } =>
                DomainErrorView::SessionMismatch {
                worktree: worktree@,
                owner: owner@,
                caller: caller@,
            },
            DomainError::WorktreeNotFound(s) => DomainErrorView::WorktreeNotFound(s@),
            DomainError::WorktreeAlreadyExists(s) => DomainErrorView::WorktreeAlreadyExists(s@),
            DomainError::BranchNotFound(s) => DomainErrorView::BranchNotFound(s@),
            DomainError::Git(s) => DomainErrorView::Git(s@),
            DomainError::Io(s) => DomainErrorView::Io(s@),
            DomainError::Lock(s) => DomainErrorView::Lock(s@),
        }
    }
}

impl DomainErrorView {
    /// The message that a user reads.
    pub open spec fn message(self) -> Seq<char> {
        match self {
            DomainErrorView::SessionMismatch { worktree, owner, caller } =>
                "session mismatch: worktree '"@ + worktree + "' belongs to session '"@ + owner
                + "', not '"@ + caller + "'"@,
            DomainErrorView::WorktreeNotFound(s) => "worktree not found: "@ + s,
            DomainErrorView::WorktreeAlreadyExists(s) => "worktree already exists: "@ + s,
            DomainErrorView::BranchNotFound(s) => "branch not found: "@ + s,
            DomainErrorView::Git(s) => "git error: "@ + s,
            DomainErrorView::Io(s) => "io error: "@ + s,
            DomainErrorView::Lock(s) => "file lock error: "@ + s,
        }
    }
}

impl DomainError {
    /// The message that a user reads.
    pub fn to_string(&self) -> (r: String)
        ensures
            r@ == self.deep_view().message(),
    {
        match self {
            DomainError::SessionMismatch { worktree, owner, caller } =>
                "session mismatch: worktree '".to_string().concat(worktree.as_str()).concat(
                "' belongs to session '",
            ).concat(owner.as_str()).concat("', not '").concat(caller.as_str()).concat("'"),
            DomainError::WorktreeNotFound(s) => "worktree not found: ".to_string().concat(
                s.as_str(),
            ),
            DomainError::WorktreeAlreadyExists(s) => "worktree already exists: ".to_string().concat(
                s.as_str(),
            ),
            DomainError::BranchNotFound(s) => "branch not found: ".to_string().concat(s.as_str()),
            DomainError::Git(s) => "git error: ".to_string().concat(s.as_str()),
            DomainError::Io(s) => "io error: ".to_string().concat(s.as_str()),
            DomainError::Lock(s) => "file lock error: ".to_string().concat(s.as_str()),
        }
    }
}

} // verus!
