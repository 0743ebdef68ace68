//! What the git operations give back.

use vstd::prelude::*;

verus! {

/// One record of `git worktree list`.
#[derive(Debug, Clone)]
pub struct Worktree {
    /// Where the worktree is.
    pub path: String,
    /// The branch that is checked out there.
    pub branch: Option<String>,
    /// Whether it is the bare repository.
    pub is_bare: bool,
}

/// A [`Worktree`] over character sequences.
pub struct WorktreeView {
    pub path: Seq<char>,
    pub branch: Option<Seq<char>>,
    pub is_bare: bool,
}

impl DeepView for Worktree {
    type V = WorktreeView;

    open spec fn deep_view(&self) -> WorktreeView {
        WorktreeView {
            path: self.path@,
            branch: self.branch.deep_view(),
            is_bare: self.is_bare,
        }
    }
}

/// The state of a working directory in short.
#[derive(Debug, Clone)]
pub struct RepoStatus {
    pub branch: String,
    pub clean: bool,
    pub changed_files: Vec<String>,
}

/// A [`RepoStatus`] over character sequences.
pub struct RepoStatusView {
    pub branch: Seq<char>,
    pub clean: bool,
    pub changed_files: Seq<Seq<char>>,
}

impl DeepView for RepoStatus {
    type V = RepoStatusView;

    open spec fn deep_view(&self) -> RepoStatusView {
        RepoStatusView {
            branch: self.branch@,
            clean: self.clean,
            changed_files: self.changed_files.deep_view(),
        }
    }
}

/// What `git diff` shows.
#[derive(Debug, Clone)]
pub struct DiffResult {
    pub stat: String,
    pub diff: String,
}

/// A [`DiffResult`] over character sequences.
pub struct DiffResultView {
    pub stat: Seq<char>,
    pub diff: Seq<char>,
}

impl DeepView for DiffResult {
    type V = DiffResultView;

    open spec fn deep_view(&self) -> DiffResultView {
        DiffResultView {
            stat: self.stat@,
            diff: self.diff@,
        }
    }
}

/// One commit of a log.
#[derive(Debug, Clone)]
pub struct LogEntry {
    pub hash: String,
    pub message: String,
}

/// A [`LogEntry`] over character sequences.
pub struct LogEntryView {
    pub hash: Seq<char>,
    pub message: Seq<char>,
}

impl DeepView for LogEntry {
    type V = LogEntryView;

    open spec fn deep_view(&self) -> LogEntryView {
        LogEntryView {
            hash: self.hash@,
            message: self.message@,
        }
    }
}

/// What a commit did.
#[derive(Debug, Clone)]
pub struct CommitResult {
    pub hash: String,
    pub message: String,
    pub files_changed: usize,
}

/// A [`CommitResult`] over character sequences.
pub struct CommitResultView {
    pub hash: Seq<char>,
    pub message: Seq<char>,
    pub files_changed: usize,
}

impl DeepView for CommitResult {
    type V = CommitResultView;

    open spec fn deep_view(&self) -> CommitResultView {
        CommitResultView {
            hash: self.hash@,
            message: self.message@,
            files_changed: self.files_changed,
        }
    }
}

/// What a merge did.
#[derive(Debug, Clone)]
pub struct MergeResult {
    pub merged_branch: String,
    pub into_branch: String,
    pub summary: String,
}

/// A [`MergeResult`] over character sequences.
pub struct MergeResultView {
    pub merged_branch: Seq<char>,
    pub into_branch: Seq<char>,
    pub summary: Seq<char>,
}

impl DeepView for MergeResult {
    type V = MergeResultView;

    open spec fn deep_view(&self) -> MergeResultView {
        MergeResultView {
            merged_branch: self.merged_branch@,
            into_branch: self.into_branch@,
            summary: self.summary@,
        }
    }
}

/// What a reset did.
#[derive(Debug, Clone)]
pub struct ResetResult {
    /// The short hash of the head before the reset.
    pub previous_head: String,
    /// The short hash of the head after it.
    pub new_head: String,
    /// `soft` or `mixed`.
    pub mode: String,
}

/// A [`ResetResult`] over character sequences.
pub struct ResetResultView {
    pub previous_head: Seq<char>,
    pub new_head: Seq<char>,
    pub mode: Seq<char>,
}

impl DeepView for ResetResult {
    type V = ResetResultView;

    open spec fn deep_view(&self) -> ResetResultView {
        ResetResultView {
            previous_head: self.previous_head@,
            new_head: self.new_head@,
            mode: self.mode@,
        }
    }
}

/// One line of `git remote -v`.
#[derive(Debug, Clone)]
pub struct RemoteEntry {
    pub name: String,
    pub url: String,
    /// `fetch` or `push`.
    pub direction: String,
}

/// A [`RemoteEntry`] over character sequences.
pub struct RemoteEntryView {
    pub name: Seq<char>,
    pub url: Seq<char>,
    pub direction: Seq<char>,
}

impl DeepView for RemoteEntry {
    type V = RemoteEntryView;

    open spec fn deep_view(&self) -> RemoteEntryView {
        RemoteEntryView {
            name: self.name@,
            url: self.url@,
            direction: self.direction@,
        }
    }
}

/// How a branch and a base stand to each other. The counts are numbers of their
/// own: no caller has to read a direction out of a text.
#[derive(Debug, Clone)]
pub struct BranchStatus {
    /// The commits of the branch that the base lacks.
    pub ahead: u32,
    /// The commits of the base that the branch lacks.
    pub behind: u32,
    /// Whether both counts are zero.
    pub up_to_date: bool,
    pub ahead_commits: Vec<LogEntry>,
    pub behind_commits: Vec<LogEntry>,
    pub common_ancestor: String,
}

/// A [`BranchStatus`] over character sequences.
pub struct BranchStatusView {
    pub ahead: u32,
    pub behind: u32,
    pub up_to_date: bool,
    pub ahead_commits: Seq<LogEntryView>,
    pub behind_commits: Seq<LogEntryView>,
    pub common_ancestor: Seq<char>,
}

impl DeepView for BranchStatus {
    type V = BranchStatusView;

    open spec fn deep_view(&self) -> BranchStatusView {
        BranchStatusView {
            ahead: self.ahead,
            behind: self.behind,
            up_to_date: self.up_to_date,
            ahead_commits: self.ahead_commits.deep_view(),
            behind_commits: self.behind_commits.deep_view(),
            common_ancestor: self.common_ancestor@,
        }
    }
}

/// The commits of a branch that its remote tracking ref lacks.
#[derive(Debug, Clone)]
pub struct UnpushedCommits {
    pub commits: Vec<LogEntry>,
    pub count: u32,
    /// The hash that the remote tracking ref points at.
    pub remote_head: String,
}

/// A [`UnpushedCommits`] over character sequences.
pub struct UnpushedCommitsView {
    pub commits: Seq<LogEntryView>,
    pub count: u32,
    pub remote_head: Seq<char>,
}

impl DeepView for UnpushedCommits {
    type V = UnpushedCommitsView;

    open spec fn deep_view(&self) -> UnpushedCommitsView {
        UnpushedCommitsView {
            commits: self.commits.deep_view(),
            count: self.count,
            remote_head: self.remote_head@,
        }
    }
}

/// Whether a commit can be reached from a remote tracking ref.
#[derive(Debug, Clone)]
pub struct IsPushedResult {
    /// Whether one such ref at least holds the commit.
    pub pushed: bool,
    /// The refs that hold it.
    pub refs: Vec<String>,
}

/// A [`IsPushedResult`] over character sequences.
pub struct IsPushedResultView {
    pub pushed: bool,
    pub refs: Seq<Seq<char>>,
}

impl DeepView for IsPushedResult {
    type V = IsPushedResultView;

    open spec fn deep_view(&self) -> IsPushedResultView {
        IsPushedResultView {
            pushed: self.pushed,
            refs: self.refs.deep_view(),
        }
    }
}

/// Whether a tag stands on a remote.
#[derive(Debug, Clone)]
pub struct TagPushStatus {
    pub pushed: bool,
    /// The refs that the remote has for the tag.
    pub remote_refs: Vec<String>,
}

/// A [`TagPushStatus`] over character sequences.
pub struct TagPushStatusView {
    pub pushed: bool,
    pub remote_refs: Seq<Seq<char>>,
}

impl DeepView for TagPushStatus {
    type V = TagPushStatusView;

    open spec fn deep_view(&self) -> TagPushStatusView {
        TagPushStatusView {
            pushed: self.pushed,
            remote_refs: self.remote_refs.deep_view(),
        }
    }
}

/// The commit a number of steps back.
#[derive(Debug, Clone)]
pub struct ResetTargetResult {
    pub target_hash: String,
    pub target_subject: String,
    /// Whether no commit on the way has two parents or more.
    pub linear: bool,
}

/// A [`ResetTargetResult`] over character sequences.
pub struct ResetTargetResultView {
    pub target_hash: Seq<char>,
    pub target_subject: Seq<char>,
    pub linear: bool,
}

impl DeepView for ResetTargetResult {
    type V = ResetTargetResultView;

    open spec fn deep_view(&self) -> ResetTargetResultView {
        ResetTargetResultView {
            target_hash: self.target_hash@,
            target_subject: self.target_subject@,
            linear: self.linear,
        }
    }
}

/// The state of a worktree in one value.
#[derive(Debug, Clone)]
pub struct WorktreeState {
    pub clean: bool,
    pub ahead: u32,
    pub behind: u32,
    /// The upstream ref, where one is set.
    pub tracking: Option<String>,
    /// The number of files with changes that are not committed.
    pub uncommitted: u32,
}

/// A [`WorktreeState`] over character sequences.
pub struct WorktreeStateView {
    pub clean: bool,
    pub ahead: u32,
    pub behind: u32,
    pub tracking: Option<Seq<char>>,
    pub uncommitted: u32,
}

impl DeepView for WorktreeState {
    type V = WorktreeStateView;

    open spec fn deep_view(&self) -> WorktreeStateView {
        WorktreeStateView {
            clean: self.clean,
            ahead: self.ahead,
            behind: self.behind,
            tracking: self.tracking.deep_view(),
            uncommitted: self.uncommitted,
        }
    }
}

} // verus!
