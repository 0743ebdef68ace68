//! What is seen of a value in contracts: all of it, each part as it is.

use vstd::prelude::*;
use crate::domain::error::{DomainError, DomainErrorView};
use crate::domain::session::WorktreeSession;
use crate::domain::worktree::{
    BranchStatus, CommitResult, DiffResult, IsPushedResult, LogEntry, MergeResult, RemoteEntry,
    RepoStatus, ResetResult, ResetTargetResult, TagPushStatus, UnpushedCommits, Worktree,
    WorktreeState,
};
use crate::infra::git::working::DiffOptions;
use crate::interface::mcp::call::{ToolCall, ToolCallView, ToolOutput, ToolOutputView};
use crate::interface::mcp::mode::{ToolError, ToolErrorView};
use crate::interface::mcp::tools::DiffRequest;
use crate::protocol::{Action, ActionView, CommandOutput, Reply, ReplyView};

verus! {

/// Every field of a result is seen as it is.
pub proof fn law_results_are_seen_whole(
    worktree: Worktree,
    status: RepoStatus,
    diff: DiffResult,
    entry: LogEntry,
    commit: CommitResult,
    merge: MergeResult,
    reset: ResetResult,
    remote: RemoteEntry,
    branch: BranchStatus,
    unpushed: UnpushedCommits,
    pushed: IsPushedResult,
    tag: TagPushStatus,
    target: ResetTargetResult,
    state: WorktreeState,
)
    ensures
        worktree.deep_view().path == worktree.path@,
        worktree.deep_view().branch == worktree.branch.deep_view(),
        worktree.deep_view().is_bare == worktree.is_bare,
        status.deep_view().branch == status.branch@,
        status.deep_view().clean == status.clean,
        status.deep_view().changed_files == status.changed_files.deep_view(),
        diff.deep_view().stat == diff.stat@,
        diff.deep_view().diff == diff.diff@,
        entry.deep_view().hash == entry.hash@,
        entry.deep_view().message == entry.message@,
        commit.deep_view().hash == commit.hash@,
        commit.deep_view().message == commit.message@,
        commit.deep_view().files_changed == commit.files_changed,
        merge.deep_view().merged_branch == merge.merged_branch@,
        merge.deep_view().into_branch == merge.into_branch@,
        merge.deep_view().summary == merge.summary@,
        reset.deep_view().previous_head == reset.previous_head@,
        reset.deep_view().new_head == reset.new_head@,
        reset.deep_view().mode == reset.mode@,
        remote.deep_view().name == remote.name@,
        remote.deep_view().url == remote.url@,
        remote.deep_view().direction == remote.direction@,
        branch.deep_view().ahead == branch.ahead,
        branch.deep_view().behind == branch.behind,
        branch.deep_view().up_to_date == branch.up_to_date,
        branch.deep_view().ahead_commits == branch.ahead_commits.deep_view(),
        branch.deep_view().behind_commits == branch.behind_commits.deep_view(),
        branch.deep_view().common_ancestor == branch.common_ancestor@,
        unpushed.deep_view().commits == unpushed.commits.deep_view(),
        unpushed.deep_view().count == unpushed.count,
        unpushed.deep_view().remote_head == unpushed.remote_head@,
        pushed.deep_view().pushed == pushed.pushed,
        pushed.deep_view().refs == pushed.refs.deep_view(),
        tag.deep_view().pushed == tag.pushed,
        tag.deep_view().remote_refs == tag.remote_refs.deep_view(),
        target.deep_view().target_hash == target.target_hash@,
        target.deep_view().target_subject == target.target_subject@,
        target.deep_view().linear == target.linear,
        state.deep_view().clean == state.clean,
        state.deep_view().ahead == state.ahead,
        state.deep_view().behind == state.behind,
        state.deep_view().tracking == state.tracking.deep_view(),
        state.deep_view().uncommitted == state.uncommitted,
{
}

/// Every argument of a call is seen as it is.
pub proof fn law_calls_are_seen_whole(call: ToolCall, request: DiffRequest, options: DiffOptions)
    ensures
        call.deep_view() == match call {
            ToolCall::SessionStart { repo_root } => ToolCallView::SessionStart {
                repo_root: repo_root@,
            },
            ToolCall::WorktreeAdd { name, branch, base_branch } => ToolCallView::WorktreeAdd {
                name: name@,
                branch: branch@,
                base_branch: base_branch.deep_view(),
            },
            ToolCall::WorktreeRemove { name } => ToolCallView::WorktreeRemove { name: name@ },
            ToolCall::SessionRelease { name } => ToolCallView::SessionRelease { name: name@ },
            ToolCall::WorktreeList => ToolCallView::WorktreeList,
            ToolCall::BranchDelete { branch, working_dir } => ToolCallView::BranchDelete {
                branch: branch@,
                working_dir: working_dir.deep_view(),
            },
            ToolCall::Commit { working_dir, message, paths } => ToolCallView::Commit {
                working_dir: working_dir@,
                message: message@,
                paths: paths.deep_view(),
            },
            ToolCall::Merge { branch, into_branch, working_dir } => ToolCallView::Merge {
                branch: branch@,
                into_branch: into_branch@,
                working_dir: working_dir.deep_view(),
            },
            ToolCall::Status { working_dir } => ToolCallView::Status { working_dir: working_dir@ },
            ToolCall::Diff(request) => ToolCallView::Diff(request.deep_view()),
            ToolCall::Log { working_dir, range, max_count } => ToolCallView::Log {
                working_dir: working_dir@,
                range: range.deep_view(),
                max_count,
            },
            ToolCall::SafeReset { working_dir, mode, target } => ToolCallView::SafeReset {
                working_dir: working_dir@,
                mode: mode.deep_view(),
                target: target.deep_view(),
            },
            ToolCall::Fetch { working_dir, remote, refspec, prune } => ToolCallView::Fetch {
                working_dir: working_dir@,
                remote: remote.deep_view(),
                refspec: refspec.deep_view(),
                prune,
            },
            ToolCall::RemoteList { working_dir } => ToolCallView::RemoteList {
                working_dir: working_dir@,
            },
            ToolCall::BranchStatus { working_dir, branch, base } => ToolCallView::BranchStatus {
                working_dir: working_dir@,
                branch: branch@,
                base: base@,
            },
            ToolCall::UnpushedCommits { working_dir, branch, remote } =>
                ToolCallView::UnpushedCommits {
                working_dir: working_dir@,
                branch: branch@,
                remote: remote@,
            },
            ToolCall::IsPushed { working_dir, commit, remote } => ToolCallView::IsPushed {
                working_dir: working_dir@,
                commit: commit@,
                remote: remote@,
            },
            ToolCall::TagPushed { working_dir, tag, remote } => ToolCallView::TagPushed {
                working_dir: working_dir@,
                tag: tag@,
                remote: remote@,
            },
            ToolCall::ResetTarget { working_dir, steps_back, from } => ToolCallView::ResetTarget {
                working_dir: working_dir@,
                steps_back,
                from: from@,
            },
            ToolCall::WorktreeState { working_dir, branch } => ToolCallView::WorktreeState {
                working_dir: working_dir@,
                branch: branch.deep_view(),
            },
        },
        request.deep_view().working_dir == request.working_dir@,
        request.deep_view().staged == request.staged,
        request.deep_view().commit_range == request.commit_range.deep_view(),
        request.deep_view().paths == request.paths.deep_view(),
        request.deep_view().name_only == request.name_only,
        request.deep_view().max_lines == request.max_lines,
        options.deep_view().staged == options.staged,
        options.deep_view().commit_range == options.commit_range.deep_view(),
        options.deep_view().paths == options.paths.deep_view(),
        options.deep_view().name_only == options.name_only,
{
}

/// Every answer is seen as it is.
pub proof fn law_answers_are_seen_whole(output: ToolOutput, error: ToolError, cause: DomainError)
    ensures
        output.deep_view() == match output {
            ToolOutput::Text(t) => ToolOutputView::Text(t@),
            ToolOutput::Remotes(r) => ToolOutputView::Remotes(r.deep_view()),
            ToolOutput::Branch(b) => ToolOutputView::Branch(b.deep_view()),
            ToolOutput::Unpushed(u) => ToolOutputView::Unpushed(u.deep_view()),
            ToolOutput::Pushed(p) => ToolOutputView::Pushed(p.deep_view()),
            ToolOutput::Tag(t) => ToolOutputView::Tag(t.deep_view()),
            ToolOutput::Target(t) => ToolOutputView::Target(t.deep_view()),
            ToolOutput::State(s) => ToolOutputView::State(s.deep_view()),
        },
        error.deep_view() == match error {
            ToolError::Internal(m) => ToolErrorView::Internal(m@),
            ToolError::InvalidParams(m) => ToolErrorView::InvalidParams(m@),
        },
        cause.deep_view() == match cause {
            DomainError::SessionMismatch { worktree, owner, caller } =>
                DomainErrorView::SessionMismatch {
                worktree: worktree@,
                owner: owner@,
                caller: caller@,
            },
            DomainError::WorktreeNotFound(s) => DomainErrorView::WorktreeNotFound(s@),
            DomainError::WorktreeAlreadyExists(s) => DomainErrorView::WorktreeAlreadyExists(s@),
            DomainError::BranchNotFound(s) => DomainErrorView::BranchNotFound(s@),
            DomainError::Git(s) => DomainErrorView::Git(s@),
            DomainError::Io(s) => DomainErrorView::Io(s@),
            DomainError::Lock(s) => DomainErrorView::Lock(s@),
        },
{
}

/// Everything that is asked for and everything that comes back is seen as it is.
pub proof fn law_questions_and_replies_are_seen_whole(
    action: Action,
    reply: Reply,
    output: CommandOutput,
    record: WorktreeSession,
)
    ensures
        action.deep_view() == match action {
            Action::Git { dir, args } => ActionView::Git { dir: dir@, args: args.deep_view() },
            Action::PathExists { path } => ActionView::PathExists { path: path@ },
            Action::IsDirectory { path } => ActionView::IsDirectory { path: path@ },
            Action::Canonicalize { path } => ActionView::Canonicalize { path: path@ },
            Action::MakeAbsolute { path } => ActionView::MakeAbsolute { path: path@ },
            Action::ReadVariable { name } => ActionView::ReadVariable { name: name@ },
            Action::ReadClock => ActionView::ReadClock,
            Action::CreateDirAll { path } => ActionView::CreateDirAll { path: path@ },
            Action::OpenLock { path } => ActionView::OpenLock { path: path@ },
            Action::LockExclusive { path } => ActionView::LockExclusive { path: path@ },
            Action::Unlock { path } => ActionView::Unlock { path: path@ },
            Action::ReadSessions { path } => ActionView::ReadSessions { path: path@ },
            Action::WriteSessions { path, sessions } => ActionView::WriteSessions {
                path: path@,
                sessions: sessions.deep_view(),
            },
        },
        reply.deep_view() == match reply {
            Reply::Output(o) => ReplyView::Output(o.deep_view()),
            Reply::Flag(b) => ReplyView::Flag(b),
            Reply::Path(p) => ReplyView::Path(p@),
            Reply::Variable(v) => ReplyView::Variable(v.deep_view()),
            Reply::Clock(c) => ReplyView::Clock(c),
            Reply::Completed => ReplyView::Completed,
            Reply::Sessions(s) => ReplyView::Sessions(s.deep_view()),
            Reply::Failed(e) => ReplyView::Failed(e@),
            Reply::Malformed(e) => ReplyView::Malformed(e@),
        },
        output.deep_view().code == output.code,
        output.deep_view().stdout == output.stdout@,
        output.deep_view().stderr == output.stderr@,
        record.deep_view().worktree_name == record.worktree_name@,
        record.deep_view().branch == record.branch@,
        record.deep_view().session_id == record.session_id@,
        record.deep_view().created_at == record.created_at@,
{
}

} // verus!
