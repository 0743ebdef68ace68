//! A call of a tool, from the request to the answer.

use vstd::prelude::*;
use crate::domain::worktree::{
    BranchStatus, BranchStatusView, IsPushedResult, IsPushedResultView, RemoteEntry,
    RemoteEntryView, ResetTargetResult, ResetTargetResultView, TagPushStatus, TagPushStatusView,
    UnpushedCommits, UnpushedCommitsView, WorktreeState, WorktreeStateView,
};
use crate::infra::git;
use crate::infra::git::inspect::{
    branch_status_flow, is_pushed_flow, reset_target_flow, tag_pushed_flow, unpushed_flow,
    worktree_state_flow,
};
use crate::infra::git::remote::{fetch_flow, remote_list_flow};
use crate::interface::mcp::mode::{holds_back, refusal, ToolError, ToolErrorView};
use crate::interface::mcp::server::{
    in_tool, lift, session_start_flow, GitWorkflowServer, ServerView,
};
use crate::interface::mcp::tools::{
    branch_delete_tool, commit_tool, diff_tool, log_tool, merge_tool, safe_reset_tool,
    session_release_tool, status_tool, worktree_add_tool, worktree_list_tool, worktree_remove_tool,
    DiffRequest, DiffRequestView,
};
use crate::protocol::{flow_view, Flow, FlowView, Halt, HaltView, Reply, ReplyView};

verus! {

/// A call of a tool.
#[derive(Debug)]
#[allow(inconsistent_fields)]
pub enum ToolCall {
    SessionStart { repo_root: String },
    WorktreeAdd { name: String, branch: String, base_branch: Option<String> },
    WorktreeRemove { name: String },
    SessionRelease { name: String },
    WorktreeList,
    BranchDelete { branch: String, working_dir: Option<String> },
    Commit { working_dir: String, message: String, paths: Option<Vec<String>> },
    Merge { branch: String, into_branch: String, working_dir: Option<String> },
    Status { working_dir: String },
    Diff(DiffRequest),
    Log { working_dir: String, range: Option<String>, max_count: Option<u32> },
    SafeReset { working_dir: String, mode: Option<String>, target: Option<String> },
    Fetch { working_dir: String, remote: Option<String>, refspec: Option<String>, prune: bool },
    RemoteList { working_dir: String },
    BranchStatus { working_dir: String, branch: String, base: String },
    UnpushedCommits { working_dir: String, branch: String, remote: String },
    IsPushed { working_dir: String, commit: String, remote: String },
    TagPushed { working_dir: String, tag: String, remote: String },
    ResetTarget { working_dir: String, steps_back: u32, from: String },
    WorktreeState { working_dir: String, branch: Option<String> },
}

/// A [`ToolCall`] over character sequences.
#[allow(inconsistent_fields)]
pub enum ToolCallView {
    SessionStart { repo_root: Seq<char> },
    WorktreeAdd { name: Seq<char>, branch: Seq<char>, base_branch: Option<Seq<char>> },
    WorktreeRemove { name: Seq<char> },
    SessionRelease { name: Seq<char> },
    WorktreeList,
    BranchDelete { branch: Seq<char>, working_dir: Option<Seq<char>> },
    Commit { working_dir: Seq<char>, message: Seq<char>, paths: Option<Seq<Seq<char>>> },
    Merge { branch: Seq<char>, into_branch: Seq<char>, working_dir: Option<Seq<char>> },
    Status { working_dir: Seq<char> },
    Diff(DiffRequestView),
    Log { working_dir: Seq<char>, range: Option<Seq<char>>, max_count: Option<u32> },
    SafeReset { working_dir: Seq<char>, mode: Option<Seq<char>>, target: Option<Seq<char>> },
    Fetch {
        working_dir: Seq<char>,
        remote: Option<Seq<char>>,
        refspec: Option<Seq<char>>,
        prune: bool,
    },
    RemoteList { working_dir: Seq<char> },
    BranchStatus { working_dir: Seq<char>, branch: Seq<char>, base: Seq<char> },
    UnpushedCommits { working_dir: Seq<char>, branch: Seq<char>, remote: Seq<char> },
    IsPushed { working_dir: Seq<char>, commit: Seq<char>, remote: Seq<char> },
    TagPushed { working_dir: Seq<char>, tag: Seq<char>, remote: Seq<char> },
    ResetTarget { working_dir: Seq<char>, steps_back: u32, from: Seq<char> },
    WorktreeState { working_dir: Seq<char>, branch: Option<Seq<char>> },
}

impl DeepView for ToolCall {
    type V = ToolCallView;

    open spec fn deep_view(&self) -> ToolCallView {
        match self {
            ToolCall::SessionStart { repo_root } => ToolCallView::SessionStart {
                repo_root: repo_root@,
            },
            ToolCall::WorktreeAdd { name, branch, base_branch } => ToolCallView::WorktreeAdd {
                name: name@,
                branch: branch@,
                base_branch: base_branch.deep_view(),
            },
            ToolCall::WorktreeRemove { name } => ToolCallView::WorktreeRemove { name: name@ },
            ToolCall::SessionRelease { name } => ToolCallView::SessionRelease { name: name@ },
            ToolCall::WorktreeList => ToolCallView::WorktreeList,
            ToolCall::BranchDelete { branch, working_dir } => ToolCallView::BranchDelete {
                branch: branch@,
                working_dir: working_dir.deep_view(),
            },
            ToolCall::Commit { working_dir, message, paths } => ToolCallView::Commit {
                working_dir: working_dir@,
                message: message@,
                paths: paths.deep_view(),
            },
            ToolCall::Merge { branch, into_branch, working_dir } => ToolCallView::Merge {
                branch: branch@,
                into_branch: into_branch@,
                working_dir: working_dir.deep_view(),
            },
            ToolCall::Status { working_dir } => ToolCallView::Status { working_dir: working_dir@ },
            ToolCall::Diff(request) => ToolCallView::Diff(request.deep_view()),
            ToolCall::Log { working_dir, range, max_count } => ToolCallView::Log {
                working_dir: working_dir@,
                range: range.deep_view(),
                max_count: *max_count,
            },
            ToolCall::SafeReset { working_dir, mode, target } => ToolCallView::SafeReset {
                working_dir: working_dir@,
                mode: mode.deep_view(),
                target: target.deep_view(),
            },
            ToolCall::Fetch { working_dir, remote, refspec, prune } => ToolCallView::Fetch {
                working_dir: working_dir@,
                remote: remote.deep_view(),
                refspec: refspec.deep_view(),
                prune: *prune,
            },
            ToolCall::RemoteList { working_dir } => ToolCallView::RemoteList {
                working_dir: working_dir@,
            },
            ToolCall::BranchStatus { working_dir, branch, base } => ToolCallView::BranchStatus {
                working_dir: working_dir@,
                branch: branch@,
                base: base@,
            },
            ToolCall::UnpushedCommits { working_dir, branch, remote } =>
                ToolCallView::UnpushedCommits {
                working_dir: working_dir@,
                branch: branch@,
                remote: remote@,
            },
            ToolCall::IsPushed { working_dir, commit, remote } => ToolCallView::IsPushed {
                working_dir: working_dir@,
                commit: commit@,
                remote: remote@,
            },
            ToolCall::TagPushed { working_dir, tag, remote } => ToolCallView::TagPushed {
                working_dir: working_dir@,
                tag: tag@,
                remote: remote@,
            },
            ToolCall::ResetTarget { working_dir, steps_back, from } => ToolCallView::ResetTarget {
                working_dir: working_dir@,
                steps_back: *steps_back,
                from: from@,
            },
            ToolCall::WorktreeState { working_dir, branch } => ToolCallView::WorktreeState {
                working_dir: working_dir@,
                branch: branch.deep_view(),
            },
        }
    }
}

/// The answer to a call: a text, or fields with types.
#[derive(Debug)]
pub enum ToolOutput {
    Text(String),
    Remotes(Vec<RemoteEntry>),
    Branch(BranchStatus),
    Unpushed(UnpushedCommits),
    Pushed(IsPushedResult),
    Tag(TagPushStatus),
    Target(ResetTargetResult),
    State(WorktreeState),
}

/// A [`ToolOutput`] over character sequences.
pub enum ToolOutputView {
    Text(Seq<char>),
    Remotes(Seq<RemoteEntryView>),
    Branch(BranchStatusView),
    Unpushed(UnpushedCommitsView),
    Pushed(IsPushedResultView),
    Tag(TagPushStatusView),
    Target(ResetTargetResultView),
    State(WorktreeStateView),
}

impl DeepView for ToolOutput {
    type V = ToolOutputView;

    open spec fn deep_view(&self) -> ToolOutputView {
        match self {
            ToolOutput::Text(t) => ToolOutputView::Text(t@),
            ToolOutput::Remotes(r) => ToolOutputView::Remotes(r.deep_view()),
            ToolOutput::Branch(b) => ToolOutputView::Branch(b.deep_view()),
            ToolOutput::Unpushed(u) => ToolOutputView::Unpushed(u.deep_view()),
            ToolOutput::Pushed(p) => ToolOutputView::Pushed(p.deep_view()),
            ToolOutput::Tag(t) => ToolOutputView::Tag(t.deep_view()),
            ToolOutput::Target(t) => ToolOutputView::Target(t.deep_view()),
            ToolOutput::State(s) => ToolOutputView::State(s.deep_view()),
        }
    }
}

/// The name of the tool that is called.
pub open spec fn tool_of(call: ToolCallView) -> Seq<char> {
    match call {
        ToolCallView::SessionStart { .. } => "session_start"@,
        ToolCallView::WorktreeAdd { .. } => "worktree_add"@,
        ToolCallView::WorktreeRemove { .. } => "worktree_remove"@,
        ToolCallView::SessionRelease { .. } => "session_release"@,
        ToolCallView::WorktreeList => "worktree_list"@,
        ToolCallView::BranchDelete { .. } => "branch_delete"@,
        ToolCallView::Commit { .. } => "commit"@,
        ToolCallView::Merge { .. } => "merge"@,
        ToolCallView::Status { .. } => "status"@,
        ToolCallView::Diff(_) => "diff"@,
        ToolCallView::Log { .. } => "log"@,
        ToolCallView::SafeReset { .. } => "safe_reset"@,
        ToolCallView::Fetch { .. } => "fetch"@,
        ToolCallView::RemoteList { .. } => "remote_list"@,
        ToolCallView::BranchStatus { .. } => "branch_status"@,
        ToolCallView::UnpushedCommits { .. } => "unpushed_commits"@,
        ToolCallView::IsPushed { .. } => "is_pushed"@,
        ToolCallView::TagPushed { .. } => "tag_pushed"@,
        ToolCallView::ResetTarget { .. } => "reset_target"@,
        ToolCallView::WorktreeState { .. } => "worktree_state"@,
    }
}

impl ToolCall {
    /// The name of the tool that is called.
    pub fn tool(&self) -> (r: &'static str)
        ensures
            r@ == tool_of(self.deep_view()),
    {
        match self {
            ToolCall::SessionStart { .. } => "session_start",
            ToolCall::WorktreeAdd { .. } => "worktree_add",
            ToolCall::WorktreeRemove { .. } => "worktree_remove",
            ToolCall::SessionRelease { .. } => "session_release",
            ToolCall::WorktreeList => "worktree_list",
            ToolCall::BranchDelete { .. } => "branch_delete",
            ToolCall::Commit { .. } => "commit",
            ToolCall::Merge { .. } => "merge",
            ToolCall::Status { .. } => "status",
            ToolCall::Diff(_) => "diff",
            ToolCall::Log { .. } => "log",
            ToolCall::SafeReset { .. } => "safe_reset",
            ToolCall::Fetch { .. } => "fetch",
            ToolCall::RemoteList { .. } => "remote_list",
            ToolCall::BranchStatus { .. } => "branch_status",
            ToolCall::UnpushedCommits { .. } => "unpushed_commits",
            ToolCall::IsPushed { .. } => "is_pushed",
            ToolCall::TagPushed { .. } => "tag_pushed",
            ToolCall::ResetTarget { .. } => "reset_target",
            ToolCall::WorktreeState { .. } => "worktree_state",
        }
    }
}

/// A text as the answer.
pub open spec fn as_text(f: FlowView<Seq<char>, ToolErrorView>) -> FlowView<
    ToolOutputView,
    ToolErrorView,
> {
    match f {
        Ok((t, n)) => Ok((ToolOutputView::Text(t), n)),
        Err(h) => Err(h),
    }
}

/// The result of an operation as the answer.
pub open spec fn as_fields<T>(
    f: FlowView<T, ToolErrorView>,
    field: spec_fn(T) -> ToolOutputView,
) -> FlowView<ToolOutputView, ToolErrorView> {
    match f {
        Ok((v, n)) => Ok((field(v), n)),
        Err(h) => Err(h),
    }
}

/// What a tool does, once the mode has let the call through.
#[verifier::opaque]
pub open spec fn tool_flow(
    server: ServerView,
    call: ToolCallView,
    replies: Seq<ReplyView>,
    at: nat,
) -> FlowView<ToolOutputView, ToolErrorView> {
    match call {
        ToolCallView::SessionStart { repo_root } => as_text(
            session_start_flow(server, repo_root, replies, at),
        ),
        ToolCallView::WorktreeAdd { name, branch, base_branch } => as_text(
            worktree_add_tool(server, name, branch, base_branch, replies, at),
        ),
        ToolCallView::WorktreeRemove { name } => as_text(
            worktree_remove_tool(server, name, replies, at),
        ),
        ToolCallView::SessionRelease { name } => as_text(
            session_release_tool(server, name, replies, at),
        ),
        ToolCallView::WorktreeList => as_text(worktree_list_tool(server, replies, at)),
        ToolCallView::BranchDelete { branch, working_dir } => as_text(
            branch_delete_tool(server, branch, working_dir, replies, at),
        ),
        ToolCallView::Commit { working_dir, message, paths } => as_text(
            commit_tool(working_dir, message, paths, replies, at),
        ),
        ToolCallView::Merge { branch, into_branch, working_dir } => as_text(
            merge_tool(server, branch, into_branch, working_dir, replies, at),
        ),
        ToolCallView::Status { working_dir } => as_text(status_tool(working_dir, replies, at)),
        ToolCallView::Diff(request) => as_text(diff_tool(request, replies, at)),
        ToolCallView::Log { working_dir, range, max_count } => as_text(
            log_tool(working_dir, range, max_count, replies, at),
        ),
        ToolCallView::SafeReset { working_dir, mode, target } => as_text(
            safe_reset_tool(working_dir, mode, target, replies, at),
        ),
        ToolCallView::Fetch { working_dir, remote, refspec, prune } => as_text(
            in_tool(fetch_flow(working_dir, remote, refspec, prune, replies, at)),
        ),
        ToolCallView::RemoteList { working_dir } => as_fields(
            in_tool(remote_list_flow(working_dir, replies, at)),
            |r: Seq<RemoteEntryView>| ToolOutputView::Remotes(r),
        ),
        ToolCallView::BranchStatus { working_dir, branch, base } => as_fields(
            in_tool(branch_status_flow(working_dir, branch, base, replies, at)),
            |b: BranchStatusView| ToolOutputView::Branch(b),
        ),
        ToolCallView::UnpushedCommits { working_dir, branch, remote } => as_fields(
            in_tool(unpushed_flow(working_dir, branch, remote, replies, at)),
            |u: UnpushedCommitsView| ToolOutputView::Unpushed(u),
        ),
        ToolCallView::IsPushed { working_dir, commit, remote } => as_fields(
            in_tool(is_pushed_flow(working_dir, commit, remote, replies, at)),
            |p: IsPushedResultView| ToolOutputView::Pushed(p),
        ),
        ToolCallView::TagPushed { working_dir, tag, remote } => as_fields(
            in_tool(tag_pushed_flow(working_dir, tag, remote, replies, at)),
            |t: TagPushStatusView| ToolOutputView::Tag(t),
        ),
        ToolCallView::ResetTarget { working_dir, steps_back, from } => as_fields(
            in_tool(reset_target_flow(working_dir, steps_back, from, replies, at)),
            |t: ResetTargetResultView| ToolOutputView::Target(t),
        ),
        ToolCallView::WorktreeState { working_dir, branch } => as_fields(
            in_tool(worktree_state_flow(working_dir, branch, replies, at)),
            |s: WorktreeStateView| ToolOutputView::State(s),
        ),
    }
}

/// A call: refused where the mode holds the tool back, and else what the tool does.
pub open spec fn call_flow(
    server: ServerView,
    call: ToolCallView,
    replies: Seq<ReplyView>,
    at: nat,
) -> FlowView<ToolOutputView, ToolErrorView> {
    if holds_back(server.mode, tool_of(call)) {
        Err(HaltView::Fail(refusal(server.mode, tool_of(call)), at))
    } else {
        tool_flow(server, call, replies, at)
    }
}

/// The connection after a call came to `outcome`: only a session that started
/// changes it.
pub open spec fn after_call(
    server: ServerView,
    call: ToolCallView,
    outcome: FlowView<ToolOutputView, ToolErrorView>,
) -> ServerView {
    match (call, outcome) {
        (ToolCallView::SessionStart { repo_root }, Ok(_)) => ServerView {
            repo_root: Some(repo_root),
            ..server
        },
        _ => server,
    }
}

/// A text as the answer.
fn text_output(f: Flow<String, ToolError>) -> (r: Flow<ToolOutput, ToolError>)
    ensures
        flow_view(r) == as_text(flow_view(f)),
{
    let (text, at) = f?;
    Ok((ToolOutput::Text(text), at))
}

/// The text in a field that may be missing.
fn text_in(field: &Option<String>) -> (r: Option<&str>)
    ensures
        r.deep_view() == field.deep_view(),
{
    match field {
        Some(s) => Some(s.as_str()),
        None => None,
    }
}

impl GitWorkflowServer {
    /// Answers a call of a tool.
    pub fn call(&mut self, call: &ToolCall, replies: &[Reply], at: usize) -> (r: Flow<
        ToolOutput,
        ToolError,
    >)
        ensures
            flow_view(r) == call_flow(
                old(self).deep_view(),
                call.deep_view(),
                replies.deep_view(),
                at as nat,
            ),
            final(self).deep_view() == after_call(
                old(self).deep_view(),
                call.deep_view(),
                flow_view(r),
            ),
    {
        if let Err(e) = self.mode().permit(call.tool()) {
            return Err(Halt::Fail(e, at));
        }
        reveal(tool_flow);
        match call {
            ToolCall::SessionStart { repo_root } => text_output(
                self.session_start(repo_root.as_str(), replies, at),
            ),
            ToolCall::WorktreeAdd { name, branch, base_branch } => text_output(
                self.worktree_add(
                    name.as_str(),
                    branch.as_str(),
                    text_in(base_branch),
                    replies,
                    at,
                ),
            ),
            ToolCall::WorktreeRemove { name } => text_output(
                self.worktree_remove(name.as_str(), replies, at),
            ),
            ToolCall::SessionRelease { name } => text_output(
                self.session_release(name.as_str(), replies, at),
            ),
            ToolCall::WorktreeList => text_output(self.worktree_list(replies, at)),
            ToolCall::BranchDelete { branch, working_dir } => text_output(
                self.branch_delete(branch.as_str(), text_in(working_dir), replies, at),
            ),
            ToolCall::Commit { working_dir, message, paths } => {
                let chosen = match paths {
                    Some(ps) => Some(ps.as_slice()),
                    None => None,
                };
                assert(chosen.deep_view() == paths.deep_view());
                text_output(
                    self.commit(working_dir.as_str(), message.as_str(), chosen, replies, at),
                )
            },
            ToolCall::Merge { branch, into_branch, working_dir } => text_output(
                self.merge(
                    branch.as_str(),
                    into_branch.as_str(),
                    text_in(working_dir),
                    replies,
                    at,
                ),
            ),
            ToolCall::Status { working_dir } => text_output(
                self.status(working_dir.as_str(), replies, at),
            ),
            ToolCall::Diff(request) => text_output(self.diff(request, replies, at)),
            ToolCall::Log { working_dir, range, max_count } => text_output(
                self.log(working_dir.as_str(), text_in(range), *max_count, replies, at),
            ),
            ToolCall::SafeReset { working_dir, mode, target } => text_output(
                self.safe_reset(
                    working_dir.as_str(),
                    text_in(mode),
                    text_in(target),
                    replies,
                    at,
                ),
            ),
            ToolCall::Fetch { working_dir, remote, refspec, prune } => text_output(
                lift(
                    git::fetch(
                        working_dir.as_str(),
                        text_in(remote),
                        text_in(refspec),
                        *prune,
                        replies,
                        at,
                    ),
                ),
            ),
            ToolCall::RemoteList { working_dir } => {
                let (remotes, at) = lift(git::remote_list(working_dir.as_str(), replies, at))?;
                Ok((ToolOutput::Remotes(remotes), at))
            },
            ToolCall::BranchStatus { working_dir, branch, base } => {
                let (status, at) = lift(
                    git::branch_status(
                        working_dir.as_str(),
                        branch.as_str(),
                        base.as_str(),
                        replies,
                        at,
                    ),
                )?;
                Ok((ToolOutput::Branch(status), at))
            },
            ToolCall::UnpushedCommits { working_dir, branch, remote } => {
                let (unpushed, at) = lift(
                    git::unpushed_commits(
                        working_dir.as_str(),
                        branch.as_str(),
                        remote.as_str(),
                        replies,
                        at,
                    ),
                )?;
                Ok((ToolOutput::Unpushed(unpushed), at))
            },
            ToolCall::IsPushed { working_dir, commit, remote } => {
                let (pushed, at) = lift(
                    git::is_pushed(
                        working_dir.as_str(),
                        commit.as_str(),
                        remote.as_str(),
                        replies,
                        at,
                    ),
                )?;
                Ok((ToolOutput::Pushed(pushed), at))
            },
            ToolCall::TagPushed { working_dir, tag, remote } => {
                let (status, at) = lift(
                    git::tag_pushed(
                        working_dir.as_str(),
                        tag.as_str(),
                        remote.as_str(),
                        replies,
                        at,
                    ),
                )?;
                Ok((ToolOutput::Tag(status), at))
            },
            ToolCall::ResetTarget { working_dir, steps_back, from } => {
                let (target, at) = lift(
                    git::reset_target(
                        working_dir.as_str(),
                        *steps_back,
                        from.as_str(),
                        replies,
                        at,
                    ),
                )?;
                Ok((ToolOutput::Target(target), at))
            },
            ToolCall::WorktreeState { working_dir, branch } => {
                let (state, at) = lift(
                    git::worktree_state(working_dir.as_str(), text_in(branch), replies, at),
                )?;
                Ok((ToolOutput::State(state), at))
            },
        }
    }
}

} // verus!
