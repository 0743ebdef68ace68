//! The tools: what each asks for, and the text that it answers with.

use vstd::prelude::*;
use vstd::string::*;
use crate::domain::error::{DomainError, DomainErrorView};
use crate::domain::session::{SessionId, WorktreeSession, WorktreeSessionView};
use crate::domain::worktree::{
    DiffResultView, LogEntry, LogEntryView, RepoStatus, RepoStatusView, Worktree, WorktreeView,
};
use crate::infra::git;
use crate::infra::git::branch::{branch_delete_flow, merge_flow};
use crate::infra::git::working::{
    commit_flow, diff_flow, log_flow, reset_flow, status_flow, DiffOptions, DiffOptionsView,
};
use crate::infra::git::path::{worktree_path, worktree_path_of};
use crate::infra::git::worktree::{worktree_add_flow, worktree_list_flow, worktree_remove_flow};
use crate::infra::session_store::{
    load_flow, register_flow, store_of, unregister_flow, verify_owner_flow,
    SessionStore, SessionStoreView,
};
use crate::interface::mcp::mode::{to_mcp_error, told, ToolError, ToolErrorView};
use crate::interface::mcp::server::{in_tool, lift, root_flow, GitWorkflowServer, ServerView};
use crate::protocol::{flow_view, Flow, FlowView, Halt, HaltView, Reply, ReplyView};
use crate::text::{
    append, closes_with, contains, copy_all, decimal, decimal_of, ends_with, holds, join, joined,
    lines, lines_of, same,
};

verus! {

// ---------------------------------------------------------------------------
// Worktrees
// ---------------------------------------------------------------------------

/// What a client is told of a new worktree.
pub open spec fn created_text(path: Seq<char>, branch: Seq<char>, session_id: Seq<char>) -> Seq<
    char,
> {
    "Worktree created.\n- Path: "@ + path + "\n- Branch: "@ + branch + "\n- Session: "@ + session_id
}

/// Making a worktree and recording that this session owns it.
pub open spec fn worktree_add_tool(
    server: ServerView,
    name: Seq<char>,
    branch: Seq<char>,
    base_branch: Option<Seq<char>>,
    replies: Seq<ReplyView>,
    at: nat,
) -> FlowView<Seq<char>, ToolErrorView> {
    match root_flow(server, at) {
        Ok((root, n)) => match in_tool(
            worktree_add_flow(root, name, branch, base_branch, replies, n),
        ) {
            Ok((path, n)) => match in_tool(
                register_flow(store_of(root), name, branch, server.session_id, replies, n),
            ) {
                Ok((_, n)) => Ok((created_text(path, branch, server.session_id), n)),
                Err(h) => Err(h),
            },
            Err(h) => Err(h),
        },
        Err(h) => Err(h),
    }
}

/// Removing a worktree that this session, or none, owns, and its records.
pub open spec fn worktree_remove_tool(
    server: ServerView,
    name: Seq<char>,
    replies: Seq<ReplyView>,
    at: nat,
) -> FlowView<Seq<char>, ToolErrorView> {
    match root_flow(server, at) {
        Ok((root, n)) => match in_tool(
            verify_owner_flow(store_of(root), name, server.session_id, replies, n),
        ) {
            Ok((_, n)) => match in_tool(worktree_remove_flow(root, name, replies, n)) {
                Ok((_, n)) => match in_tool(unregister_flow(store_of(root), name, replies, n)) {
                    Ok((_, n)) => Ok(("Worktree '"@ + name + "' removed."@, n)),
                    Err(h) => Err(h),
                },
                Err(h) => Err(h),
            },
            Err(h) => Err(h),
        },
        Err(h) => Err(h),
    }
}

/// Dropping the records of a worktree, whoever owns it.
pub open spec fn session_release_tool(
    server: ServerView,
    name: Seq<char>,
    replies: Seq<ReplyView>,
    at: nat,
) -> FlowView<Seq<char>, ToolErrorView> {
    match root_flow(server, at) {
        Ok((root, n)) => match in_tool(unregister_flow(store_of(root), name, replies, n)) {
            Ok((_, n)) => Ok(
                ("Session ownership released for worktree '"@ + name + "'."@, n),
            ),
            Err(h) => Err(h),
        },
        Err(h) => Err(h),
    }
}

/// The records, or none where they cannot be read.
pub open spec fn known_records(
    store: SessionStoreView,
    replies: Seq<ReplyView>,
    at: nat,
) -> FlowView<Seq<WorktreeSessionView>, ToolErrorView> {
    match load_flow(store, replies, at) {
        Ok(loaded) => Ok(loaded),
        Err(HaltView::Fail(_, n)) => Ok((seq![], n)),
        Err(HaltView::Ask(a)) => Err(HaltView::Ask(a)),
        Err(HaltView::Mismatch) => Err(HaltView::Mismatch),
    }
}

/// How closely the name of a record fits the path of a worktree.
#[derive(Clone, Copy)]
pub enum Fit {
    /// The path is where the repository has the worktree of that name.
    Place,
    /// The path ends with the directory of the worktrees and the name.
    Ending,
    /// The path has no directory of worktrees in it, and ends with the name.
    Name,
}

/// Whether `name` fits the worktree at `path` of the repository `root` that closely.
pub open spec fn fits(root: Seq<char>, path: Seq<char>, name: Seq<char>, fit: Fit) -> bool {
    match fit {
        Fit::Place => worktree_path_of(root, name) == path,
        Fit::Ending => closes_with(path, "/.worktrees/"@ + name),
        Fit::Name => !holds(path, "/.worktrees/"@) && closes_with(path, "/"@ + name),
    }
}

/// The owner in the first record whose name fits that closely.
pub open spec fn fitting_owner(
    sessions: Seq<WorktreeSessionView>,
    root: Seq<char>,
    path: Seq<char>,
    fit: Fit,
) -> Option<Seq<char>>
    decreases sessions.len(),
{
    if sessions.len() == 0 {
        None
    } else if fits(root, path, sessions[0].worktree_name, fit) {
        Some(sessions[0].session_id)
    } else {
        fitting_owner(sessions.drop_first(), root, path, fit)
    }
}

/// The owner of the worktree at `path`: by the record whose name fits most closely. A
/// name fits whole components of the path only.
pub open spec fn owner_at(
    sessions: Seq<WorktreeSessionView>,
    root: Seq<char>,
    path: Seq<char>,
) -> Option<Seq<char>> {
    match fitting_owner(sessions, root, path, Fit::Place) {
        Some(owner) => Some(owner),
        None => match fitting_owner(sessions, root, path, Fit::Ending) {
            Some(owner) => Some(owner),
            None => fitting_owner(sessions, root, path, Fit::Name),
        },
    }
}

/// How the list names an owner.
pub open spec fn owner_text(owner: Option<Seq<char>>, caller: Seq<char>) -> Seq<char> {
    match owner {
        Some(id) => {
            let mine = if id == caller {
                " (this session)"@
            } else {
                seq![]
            };
            "session:"@ + id + mine
        },
        None => "untracked"@,
    }
}

/// The line of a worktree in the list.
pub open spec fn worktree_line(
    worktree: WorktreeView,
    root: Seq<char>,
    sessions: Seq<WorktreeSessionView>,
    caller: Seq<char>,
) -> Seq<char> {
    let branch = match worktree.branch {
        Some(b) => b,
        None => "(detached)"@,
    };
    "- "@ + worktree.path + " ["@ + branch + "] owner="@ + owner_text(
        owner_at(sessions, root, worktree.path),
        caller,
    )
}

/// The lines of the list: one for each worktree that is not bare.
pub open spec fn worktree_lines(
    worktrees: Seq<WorktreeView>,
    root: Seq<char>,
    sessions: Seq<WorktreeSessionView>,
    caller: Seq<char>,
) -> Seq<Seq<char>>
    decreases worktrees.len(),
{
    if worktrees.len() == 0 {
        seq![]
    } else {
        let earlier = worktree_lines(worktrees.drop_last(), root, sessions, caller);
        if worktrees.last().is_bare {
            earlier
        } else {
            earlier.push(worktree_line(worktrees.last(), root, sessions, caller))
        }
    }
}

/// The list of worktrees.
pub open spec fn worktrees_text(
    worktrees: Seq<WorktreeView>,
    root: Seq<char>,
    sessions: Seq<WorktreeSessionView>,
    caller: Seq<char>,
) -> Seq<char> {
    let all = worktree_lines(worktrees, root, sessions, caller);
    if all.len() == 0 {
        "No worktrees (besides main)."@
    } else {
        joined(all, "\n"@)
    }
}

/// Listing the worktrees and who owns them.
pub open spec fn worktree_list_tool(
    server: ServerView,
    replies: Seq<ReplyView>,
    at: nat,
) -> FlowView<Seq<char>, ToolErrorView> {
    match root_flow(server, at) {
        Ok((root, n)) => match in_tool(worktree_list_flow(root, replies, n)) {
            Ok((worktrees, n)) => match known_records(store_of(root), replies, n) {
                Ok((sessions, n)) => Ok(
                    (worktrees_text(worktrees, root, sessions, server.session_id), n),
                ),
                Err(h) => Err(h),
            },
            Err(h) => Err(h),
        },
        Err(h) => Err(h),
    }
}

/// The records, or none where they cannot be read.
fn records_or_none(store: &SessionStore, replies: &[Reply], at: usize) -> (r: Flow<
    Vec<WorktreeSession>,
    ToolError,
>)
    ensures
        flow_view(r) == known_records(store.deep_view(), replies.deep_view(), at as nat),
{
    match store.load(replies, at) {
        Ok(loaded) => Ok(loaded),
        Err(Halt::Fail(_, at)) => {
            let none: Vec<WorktreeSession> = Vec::new();
            assert(none.deep_view() =~= seq![]);
            Ok((none, at))
        },
        Err(Halt::Ask(a)) => Err(Halt::Ask(a)),
        Err(Halt::Mismatch) => Err(Halt::Mismatch),
    }
}

/// Whether `name` fits the worktree at `path` of the repository `root` that closely.
fn name_fits(root: &str, path: &str, name: &str, fit: Fit) -> (r: bool)
    ensures
        r == fits(root@, path@, name@, fit),
{
    match fit {
        Fit::Place => same(worktree_path(root, name).as_str(), path),
        Fit::Ending => ends_with(path, "/.worktrees/".to_string().concat(name).as_str()),
        Fit::Name => !contains(path, "/.worktrees/") && ends_with(
            path,
            "/".to_string().concat(name).as_str(),
        ),
    }
}

/// The owner in the first record whose name fits that closely.
fn find_fitting(sessions: &[WorktreeSession], root: &str, path: &str, fit: Fit) -> (r: Option<
    SessionId,
>)
    ensures
        r.deep_view() == fitting_owner(sessions.deep_view(), root@, path@, fit),
{
    let ghost ss = sessions.deep_view();
    let mut i: usize = 0;
    assert(ss.skip(0) =~= ss);
    while i < sessions.len()
        invariant
            ss == sessions.deep_view(),
            i <= sessions@.len(),
            fitting_owner(ss, root@, path@, fit) == fitting_owner(
                ss.skip(i as int),
                root@,
                path@,
                fit,
            ),
        decreases sessions@.len() - i,
    {
        assert(ss.skip(i as int)[0] == sessions@[i as int].deep_view());
        assert(ss.skip(i as int).drop_first() =~= ss.skip(i + 1));
        if name_fits(root, path, sessions[i].worktree_name.as_str(), fit) {
            return Some(sessions[i].session_id.clone());
        }
        i += 1;
    }
    None
}

/// The owner of the worktree at `path`.
fn find_owner_at(sessions: &[WorktreeSession], root: &str, path: &str) -> (r: Option<SessionId>)
    ensures
        r.deep_view() == owner_at(sessions.deep_view(), root@, path@),
{
    if let Some(owner) = find_fitting(sessions, root, path, Fit::Place) {
        return Some(owner);
    }
    if let Some(owner) = find_fitting(sessions, root, path, Fit::Ending) {
        return Some(owner);
    }
    find_fitting(sessions, root, path, Fit::Name)
}

/// How the list names an owner.
fn describe_owner(owner: &Option<SessionId>, caller: &SessionId) -> (r: String)
    ensures
        r@ == owner_text(owner.deep_view(), caller@),
{
    match owner {
        Some(id) => {
            let mine = if id.same(caller) {
                " (this session)"
            } else {
                ""
            };
            proof {
                reveal_strlit("");
            }
            assert(""@ =~= seq![]);
            "session:".to_string().concat(id.as_str()).concat(mine)
        },
        None => "untracked".to_string(),
    }
}

/// The list of worktrees.
pub fn render_worktrees(
    worktrees: &[Worktree],
    root: &str,
    sessions: &[WorktreeSession],
    caller: &SessionId,
) -> (r: String)
    ensures
        r@ == worktrees_text(worktrees.deep_view(), root@, sessions.deep_view(), caller@),
{
    let ghost ws = worktrees.deep_view();
    let ghost ss = sessions.deep_view();
    let mut all: Vec<String> = Vec::new();
    let mut i: usize = 0;
    while i < worktrees.len()
        invariant
            ws == worktrees.deep_view(),
            ss == sessions.deep_view(),
            i <= worktrees@.len(),
            all.deep_view() == worktree_lines(ws.take(i as int), root@, ss, caller@),
        decreases worktrees@.len() - i,
    {
        assert(ws.take(i + 1).drop_last() =~= ws.take(i as int));
        assert(ws.take(i + 1).last() == worktrees@[i as int].deep_view());
        let worktree = &worktrees[i];
        if !worktree.is_bare {
            let branch = match &worktree.branch {
                Some(b) => b.as_str(),
                None => "(detached)",
            };
            let found = find_owner_at(sessions, root, worktree.path.as_str());
            let owner = describe_owner(&found, caller);
            let line = "- ".to_string().concat(worktree.path.as_str()).concat(" [").concat(
                branch,
            ).concat("] owner=").concat(owner.as_str());
            append(&mut all, line);
        }
        i += 1;
    }
    assert(ws.take(i as int) =~= ws);
    if all.is_empty() {
        "No worktrees (besides main).".to_string()
    } else {
        let ghost ls = all.deep_view();
        assert(ls.take(ls.len() as int) =~= ls);
        join(all.as_slice(), all.len(), "\n")
    }
}

// ---------------------------------------------------------------------------
// Branches
// ---------------------------------------------------------------------------

/// The first record of a branch.
pub open spec fn record_on(sessions: Seq<WorktreeSessionView>, branch: Seq<char>) -> Option<
    WorktreeSessionView,
>
    decreases sessions.len(),
{
    if sessions.len() == 0 {
        None
    } else if sessions[0].branch == branch {
        Some(sessions[0])
    } else {
        record_on(sessions.drop_first(), branch)
    }
}

/// Whether `caller` may act on a branch: the session that made it may, and where
/// none is recorded everybody may.
pub open spec fn branch_ownership(
    sessions: Seq<WorktreeSessionView>,
    branch: Seq<char>,
    caller: Seq<char>,
) -> Result<(), DomainErrorView> {
    match record_on(sessions, branch) {
        Some(record) => if record.session_id == caller {
            Ok(())
        } else {
            Err(
                DomainErrorView::SessionMismatch {
                    worktree: record.worktree_name,
                    owner: record.session_id,
                    caller,
                },
            )
        },
        None => Ok(()),
    }
}

/// Checking that this session may act on a branch of the repository.
pub open spec fn branch_guard(
    server: ServerView,
    root: Seq<char>,
    branch: Seq<char>,
    replies: Seq<ReplyView>,
    at: nat,
) -> FlowView<(), ToolErrorView> {
    match known_records(store_of(root), replies, at) {
        Ok((sessions, n)) => match branch_ownership(sessions, branch, server.session_id) {
            Ok(_) => Ok(((), n)),
            Err(e) => Err(HaltView::Fail(told(e), n)),
        },
        Err(h) => Err(h),
    }
}

/// Deleting a branch that this session, or none, made.
pub open spec fn branch_delete_tool(
    server: ServerView,
    branch: Seq<char>,
    working_dir: Option<Seq<char>>,
    replies: Seq<ReplyView>,
    at: nat,
) -> FlowView<Seq<char>, ToolErrorView> {
    match root_flow(server, at) {
        Ok((root, n)) => match branch_guard(server, root, branch, replies, n) {
            Ok((_, n)) => match in_tool(
                branch_delete_flow(root, branch, working_dir, replies, n),
            ) {
                Ok((_, n)) => Ok(("Branch '"@ + branch + "' deleted."@, n)),
                Err(h) => Err(h),
            },
            Err(h) => Err(h),
        },
        Err(h) => Err(h),
    }
}

/// Merging a branch that this session, or none, made.
pub open spec fn merge_tool(
    server: ServerView,
    branch: Seq<char>,
    into_branch: Seq<char>,
    working_dir: Option<Seq<char>>,
    replies: Seq<ReplyView>,
    at: nat,
) -> FlowView<Seq<char>, ToolErrorView> {
    match root_flow(server, at) {
        Ok((root, n)) => match branch_guard(server, root, branch, replies, n) {
            Ok((_, n)) => match in_tool(
                merge_flow(root, branch, into_branch, working_dir, replies, n),
            ) {
                Ok((result, n)) => Ok(
                    (
                        "Merged '"@ + result.merged_branch + "' into '"@ + result.into_branch
                            + "'.\n"@ + result.summary,
                        n,
                    ),
                ),
                Err(h) => Err(h),
            },
            Err(h) => Err(h),
        },
        Err(h) => Err(h),
    }
}

/// Whether `caller` may act on a branch.
pub fn check_branch_owner(sessions: &[WorktreeSession], branch: &str, caller: &SessionId) -> (r:
    Result<(), DomainError>)
    ensures
        match r {
            Ok(()) => branch_ownership(sessions.deep_view(), branch@, caller@) is Ok,
            Err(e) => branch_ownership(sessions.deep_view(), branch@, caller@) == Err::<(), _>(
                e.deep_view(),
            ),
        },
{
    let ghost ss = sessions.deep_view();
    let mut i: usize = 0;
    assert(ss.skip(0) =~= ss);
    while i < sessions.len()
        invariant
            ss == sessions.deep_view(),
            i <= sessions@.len(),
            record_on(ss, branch@) == record_on(ss.skip(i as int), branch@),
        decreases sessions@.len() - i,
    {
        assert(ss.skip(i as int)[0] == sessions@[i as int].deep_view());
        assert(ss.skip(i as int).drop_first() =~= ss.skip(i + 1));
        let record = &sessions[i];
        if same(record.branch.as_str(), branch) {
            if record.session_id.same(caller) {
                return Ok(());
            }
            return Err(
                DomainError::SessionMismatch {
                    worktree: record.worktree_name.clone(),
                    owner: record.session_id.to_string(),
                    caller: caller.to_string(),
                },
            );
        }
        i += 1;
    }
    Ok(())
}

// ---------------------------------------------------------------------------
// Working directories
// ---------------------------------------------------------------------------

/// Committing.
pub open spec fn commit_tool(
    working_dir: Seq<char>,
    message: Seq<char>,
    paths: Option<Seq<Seq<char>>>,
    replies: Seq<ReplyView>,
    at: nat,
) -> FlowView<Seq<char>, ToolErrorView> {
    match in_tool(commit_flow(working_dir, message, paths, replies, at)) {
        Ok((result, n)) => Ok(
            (
                "Committed.\n- Hash: "@ + result.hash + "\n- Message: "@ + result.message
                    + "\n- Files changed: "@ + decimal_of(result.files_changed as nat),
                n,
            ),
        ),
        Err(h) => Err(h),
    }
}

/// The lines of the changed files.
pub open spec fn file_lines(files: Seq<Seq<char>>) -> Seq<char>
    decreases files.len(),
{
    if files.len() == 0 {
        seq![]
    } else {
        file_lines(files.drop_last()) + ("  "@ + files.last() + "\n"@)
    }
}

/// How a flag is written.
pub open spec fn flag_text(b: bool) -> Seq<char> {
    if b {
        "true"@
    } else {
        "false"@
    }
}

/// What a client is told of the status.
pub open spec fn status_text(status: RepoStatusView) -> Seq<char> {
    let head = "Branch: "@ + status.branch + "\nClean: "@ + flag_text(status.clean) + "\n"@;
    let files = status.changed_files;
    if files.len() == 0 {
        head
    } else {
        head + decimal_of(files.len()) + " changed file(s):\n"@ + file_lines(files)
    }
}

/// Showing the status.
pub open spec fn status_tool(working_dir: Seq<char>, replies: Seq<ReplyView>, at: nat) -> FlowView<
    Seq<char>,
    ToolErrorView,
> {
    match in_tool(status_flow(working_dir, replies, at)) {
        Ok((status, n)) => Ok((status_text(status), n)),
        Err(h) => Err(h),
    }
}

/// What a client is told of the status.
pub fn render_status(status: &RepoStatus) -> (r: String)
    ensures
        r@ == status_text(status.deep_view()),
{
    let clean = if status.clean {
        "true"
    } else {
        "false"
    };
    let head = "Branch: ".to_string().concat(status.branch.as_str()).concat("\nClean: ").concat(
        clean,
    ).concat("\n");
    let n = status.changed_files.len();
    let ghost fs = status.changed_files.deep_view();
    if n == 0 {
        return head;
    }
    let ghost start = head@ + decimal_of(n as nat) + " changed file(s):\n"@;
    let mut out = head.concat(decimal(n as u64).as_str()).concat(" changed file(s):\n");
    let mut i: usize = 0;
    assert(out@ =~= start + file_lines(fs.take(0)));
    while i < n
        invariant
            fs == status.changed_files.deep_view(),
            i <= n == status.changed_files@.len(),
            out@ == start + file_lines(fs.take(i as int)),
        decreases n - i,
    {
        assert(fs.take(i + 1).drop_last() =~= fs.take(i as int));
        assert(fs.take(i + 1).last() == status.changed_files@[i as int]@);
        out = out.concat("  ").concat(status.changed_files[i].as_str()).concat("\n");
        i += 1;
        assert(out@ =~= start + file_lines(fs.take(i as int)));
    }
    assert(fs.take(i as int) =~= fs);
    out
}

/// What to compare, as a client asks for it.
#[derive(Debug)]
pub struct DiffRequest {
    pub working_dir: String,
    /// Compare what is staged. Not together with `commit_range`.
    pub staged: Option<bool>,
    pub commit_range: Option<String>,
    pub paths: Option<Vec<String>>,
    pub name_only: Option<bool>,
    /// Cut the patch off behind so many lines.
    pub max_lines: Option<u32>,
}

/// A [`DiffRequest`] over character sequences.
pub struct DiffRequestView {
    pub working_dir: Seq<char>,
    pub staged: Option<bool>,
    pub commit_range: Option<Seq<char>>,
    pub paths: Option<Seq<Seq<char>>>,
    pub name_only: Option<bool>,
    pub max_lines: Option<u32>,
}

impl DeepView for DiffRequest {
    type V = DiffRequestView;

    open spec fn deep_view(&self) -> DiffRequestView {
        DiffRequestView {
            working_dir: self.working_dir@,
            staged: self.staged,
            commit_range: self.commit_range.deep_view(),
            paths: self.paths.deep_view(),
            name_only: self.name_only,
            max_lines: self.max_lines,
        }
    }
}

/// The options that a request comes to.
pub open spec fn diff_options(request: DiffRequestView) -> DiffOptionsView {
    DiffOptionsView {
        staged: request.staged == Some(true),
        commit_range: request.commit_range,
        paths: request.paths,
        name_only: request.name_only == Some(true),
    }
}

/// The patch, cut off behind `max_lines` lines where it has more.
pub open spec fn cut_diff(diff: Seq<char>, max_lines: Option<u32>) -> Seq<char> {
    match max_lines {
        Some(max) => {
            let all = lines_of(diff);
            if all.len() > max {
                joined(all.take(max as int), "\n"@) + "\n... (truncated, showing "@ + decimal_of(
                    max as nat,
                ) + "/"@ + decimal_of(all.len()) + " lines)"@
            } else {
                diff
            }
        },
        None => diff,
    }
}

/// What a client is told of the comparison.
pub open spec fn diff_text(result: DiffResultView, max_lines: Option<u32>) -> Seq<char> {
    let shown = cut_diff(result.diff, max_lines);
    if result.stat.len() == 0 && shown.len() == 0 {
        "No changes."@
    } else if result.stat.len() == 0 {
        shown
    } else {
        result.stat + "\n\n"@ + shown
    }
}

/// Comparing.
pub open spec fn diff_tool(request: DiffRequestView, replies: Seq<ReplyView>, at: nat) -> FlowView<
    Seq<char>,
    ToolErrorView,
> {
    if request.staged == Some(true) && request.commit_range is Some {
        Err(
            HaltView::Fail(
                ToolErrorView::Internal("staged and commit_range cannot be used together"@),
                at,
            ),
        )
    } else {
        match in_tool(diff_flow(request.working_dir, diff_options(request), replies, at)) {
            Ok((result, n)) => Ok((diff_text(result, request.max_lines), n)),
            Err(h) => Err(h),
        }
    }
}

/// The patch, cut off behind `max_lines` lines where it has more.
pub fn truncate_diff(diff: String, max_lines: Option<u32>) -> (r: String)
    ensures
        r@ == cut_diff(diff@, max_lines),
{
    if let Some(max) = max_lines {
        let all = lines(diff.as_str());
        let total = all.len();
        assert(all.deep_view().len() == total);
        if total > max as usize {
            let shown = join(all.as_slice(), max as usize, "\n");
            return shown.concat("\n... (truncated, showing ").concat(
                decimal(max as u64).as_str(),
            ).concat("/").concat(decimal(total as u64).as_str()).concat(" lines)");
        }
    }
    diff
}

/// The line of a commit.
pub open spec fn entry_line(entry: LogEntryView) -> Seq<char> {
    entry.hash + " "@ + entry.message
}

/// What a client is told of the last commits.
pub open spec fn log_text(entries: Seq<LogEntryView>) -> Seq<char> {
    if entries.len() == 0 {
        "No commits."@
    } else {
        joined(entries.map_values(|e: LogEntryView| entry_line(e)), "\n"@)
    }
}

/// Showing the last commits, twenty where no number is given.
pub open spec fn log_tool(
    working_dir: Seq<char>,
    range: Option<Seq<char>>,
    max_count: Option<u32>,
    replies: Seq<ReplyView>,
    at: nat,
) -> FlowView<Seq<char>, ToolErrorView> {
    let count = match max_count {
        Some(n) => n,
        None => 20,
    };
    match in_tool(log_flow(working_dir, range, count, replies, at)) {
        Ok((entries, n)) => Ok((log_text(entries), n)),
        Err(h) => Err(h),
    }
}

/// What a client is told of the last commits.
pub fn render_log(entries: &[LogEntry]) -> (r: String)
    ensures
        r@ == log_text(entries.deep_view()),
{
    let ghost es = entries.deep_view();
    let ghost ls = es.map_values(|e: LogEntryView| entry_line(e));
    if entries.is_empty() {
        return "No commits.".to_string();
    }
    let mut all: Vec<String> = Vec::new();
    let mut i: usize = 0;
    while i < entries.len()
        invariant
            es == entries.deep_view(),
            ls == es.map_values(|e: LogEntryView| entry_line(e)),
            i <= entries@.len(),
            all.deep_view() == ls.take(i as int),
        decreases entries@.len() - i,
    {
        let entry = &entries[i];
        let line = entry.hash.clone().concat(" ").concat(entry.message.as_str());
        append(&mut all, line);
        i += 1;
        assert(all.deep_view() =~= ls.take(i as int));
    }
    assert(all.deep_view().take(all@.len() as int) =~= ls);
    join(all.as_slice(), all.len(), "\n")
}

/// Resetting: mixed where no mode is given, by one commit where no target is.
pub open spec fn safe_reset_tool(
    working_dir: Seq<char>,
    mode: Option<Seq<char>>,
    target: Option<Seq<char>>,
    replies: Seq<ReplyView>,
    at: nat,
) -> FlowView<Seq<char>, ToolErrorView> {
    let chosen = match mode {
        Some(m) => m,
        None => "mixed"@,
    };
    let goal = match target {
        Some(t) => t,
        None => "HEAD~1"@,
    };
    match in_tool(reset_flow(working_dir, chosen, goal, replies, at)) {
        Ok((result, n)) => Ok(
            (
                "Reset completed ("@ + result.mode + ").\n- Previous HEAD: "@ + result.previous_head
                    + "\n- New HEAD: "@ + result.new_head + "\n- Target: "@ + goal
                    + "\nTo undo: git reset --soft "@ + result.previous_head,
                n,
            ),
        ),
        Err(h) => Err(h),
    }
}

// ---------------------------------------------------------------------------
// The tools
// ---------------------------------------------------------------------------

impl GitWorkflowServer {
    /// Makes a worktree that this session owns.
    pub fn worktree_add(
        &self,
        name: &str,
        branch: &str,
        base_branch: Option<&str>,
        replies: &[Reply],
        at: usize,
    ) -> (r: Flow<String, ToolError>)
        ensures
            flow_view(r) == worktree_add_tool(
                self.deep_view(),
                name@,
                branch@,
                base_branch.deep_view(),
                replies.deep_view(),
                at as nat,
            ),
    {
        let (root, at) = self.repo_root(at)?;
        let (path, at) = lift(
            git::worktree_add(root.as_str(), name, branch, base_branch, replies, at),
        )?;
        let store = SessionStore::new(root.as_str());
        let (_, at) = lift(store.register(name, branch, self.session_id(), replies, at))?;
        let text = "Worktree created.\n- Path: ".to_string().concat(path.as_str()).concat(
            "\n- Branch: ",
        ).concat(branch).concat("\n- Session: ").concat(self.session_id().as_str());
        Ok((text, at))
    }

    /// Removes a worktree that this session, or none, owns.
    pub fn worktree_remove(&self, name: &str, replies: &[Reply], at: usize) -> (r: Flow<
        String,
        ToolError,
    >)
        ensures
            flow_view(r) == worktree_remove_tool(
                self.deep_view(),
                name@,
                replies.deep_view(),
                at as nat,
            ),
    {
        let (root, at) = self.repo_root(at)?;
        let store = SessionStore::new(root.as_str());
        let (_, at) = lift(store.verify_owner(name, self.session_id(), replies, at))?;
        let (_, at) = lift(git::worktree_remove(root.as_str(), name, replies, at))?;
        let (_, at) = lift(store.unregister(name, replies, at))?;
        Ok(("Worktree '".to_string().concat(name).concat("' removed."), at))
    }

    /// Drops the records of a worktree, whoever owns it.
    pub fn session_release(&self, name: &str, replies: &[Reply], at: usize) -> (r: Flow<
        String,
        ToolError,
    >)
        ensures
            flow_view(r) == session_release_tool(
                self.deep_view(),
                name@,
                replies.deep_view(),
                at as nat,
            ),
    {
        let (root, at) = self.repo_root(at)?;
        let store = SessionStore::new(root.as_str());
        let (_, at) = lift(store.unregister(name, replies, at))?;
        let text = "Session ownership released for worktree '".to_string().concat(name).concat(
            "'.",
        );
        Ok((text, at))
    }

    /// Lists the worktrees and who owns them.
    pub fn worktree_list(&self, replies: &[Reply], at: usize) -> (r: Flow<String, ToolError>)
        ensures
            flow_view(r) == worktree_list_tool(self.deep_view(), replies.deep_view(), at as nat),
    {
        let (root, at) = self.repo_root(at)?;
        let store = SessionStore::new(root.as_str());
        let (worktrees, at) = lift(git::worktree_list(root.as_str(), replies, at))?;
        let (sessions, at) = records_or_none(&store, replies, at)?;
        let text = render_worktrees(
            worktrees.as_slice(),
            root.as_str(),
            sessions.as_slice(),
            self.session_id(),
        );
        Ok((text, at))
    }

    /// Checks that this session may act on a branch.
    fn guard_branch(&self, root: &str, branch: &str, replies: &[Reply], at: usize) -> (r: Flow<
        (),
        ToolError,
    >)
        ensures
            flow_view(r) == branch_guard(
                self.deep_view(),
                root@,
                branch@,
                replies.deep_view(),
                at as nat,
            ),
    {
        let store = SessionStore::new(root);
        let (sessions, at) = records_or_none(&store, replies, at)?;
        match check_branch_owner(sessions.as_slice(), branch, self.session_id()) {
            Ok(()) => Ok(((), at)),
            Err(e) => Err(Halt::Fail(to_mcp_error(e), at)),
        }
    }

    /// Deletes a merged branch that this session, or none, made.
    pub fn branch_delete(
        &self,
        branch: &str,
        working_dir: Option<&str>,
        replies: &[Reply],
        at: usize,
    ) -> (r: Flow<String, ToolError>)
        ensures
            flow_view(r) == branch_delete_tool(
                self.deep_view(),
                branch@,
                working_dir.deep_view(),
                replies.deep_view(),
                at as nat,
            ),
    {
        let (root, at) = self.repo_root(at)?;
        let (_, at) = self.guard_branch(root.as_str(), branch, replies, at)?;
        let (_, at) = lift(
            git::branch_delete(root.as_str(), branch, working_dir, replies, at),
        )?;
        Ok(("Branch '".to_string().concat(branch).concat("' deleted."), at))
    }

    /// Merges a branch that this session, or none, made.
    pub fn merge(
        &self,
        branch: &str,
        into_branch: &str,
        working_dir: Option<&str>,
        replies: &[Reply],
        at: usize,
    ) -> (r: Flow<String, ToolError>)
        ensures
            flow_view(r) == merge_tool(
                self.deep_view(),
                branch@,
                into_branch@,
                working_dir.deep_view(),
                replies.deep_view(),
                at as nat,
            ),
    {
        let (root, at) = self.repo_root(at)?;
        let (_, at) = self.guard_branch(root.as_str(), branch, replies, at)?;
        let (result, at) = lift(
            git::merge(root.as_str(), branch, into_branch, working_dir, replies, at),
        )?;
        let text = "Merged '".to_string().concat(result.merged_branch.as_str()).concat(
            "' into '",
        ).concat(result.into_branch.as_str()).concat("'.\n").concat(result.summary.as_str());
        Ok((text, at))
    }

    /// Commits: the given paths where there are any, or else everything.
    pub fn commit(
        &self,
        working_dir: &str,
        message: &str,
        paths: Option<&[String]>,
        replies: &[Reply],
        at: usize,
    ) -> (r: Flow<String, ToolError>)
        ensures
            flow_view(r) == commit_tool(
                working_dir@,
                message@,
                paths.deep_view(),
                replies.deep_view(),
                at as nat,
            ),
    {
        let (result, at) = lift(git::commit(working_dir, message, paths, replies, at))?;
        let text = "Committed.\n- Hash: ".to_string().concat(result.hash.as_str()).concat(
            "\n- Message: ",
        ).concat(result.message.as_str()).concat("\n- Files changed: ").concat(
            decimal(result.files_changed as u64).as_str(),
        );
        Ok((text, at))
    }

    /// Shows the status.
    pub fn status(&self, working_dir: &str, replies: &[Reply], at: usize) -> (r: Flow<
        String,
        ToolError,
    >)
        ensures
            flow_view(r) == status_tool(working_dir@, replies.deep_view(), at as nat),
    {
        let (status, at) = lift(git::status(working_dir, replies, at))?;
        Ok((render_status(&status), at))
    }

    /// Compares.
    pub fn diff(&self, request: &DiffRequest, replies: &[Reply], at: usize) -> (r: Flow<
        String,
        ToolError,
    >)
        ensures
            flow_view(r) == diff_tool(request.deep_view(), replies.deep_view(), at as nat),
    {
        let staged = match request.staged {
            Some(b) => b,
            None => false,
        };
        if staged && request.commit_range.is_some() {
            let message = "staged and commit_range cannot be used together".to_string();
            return Err(Halt::Fail(ToolError::Internal(message), at));
        }
        let commit_range = match &request.commit_range {
            Some(range) => Some(range.clone()),
            None => None,
        };
        let paths = match &request.paths {
            Some(ps) => Some(copy_all(ps.as_slice())),
            None => None,
        };
        let name_only = match request.name_only {
            Some(b) => b,
            None => false,
        };
        let opts = DiffOptions { staged, commit_range, paths, name_only };
        assert(opts.deep_view() == diff_options(request.deep_view()));
        let (result, at) = lift(git::diff(request.working_dir.as_str(), &opts, replies, at))?;
        let shown = truncate_diff(result.diff, request.max_lines);
        let text = if result.stat.as_str().is_empty() && shown.as_str().is_empty() {
            "No changes.".to_string()
        } else if result.stat.as_str().is_empty() {
            shown
        } else {
            result.stat.concat("\n\n").concat(shown.as_str())
        };
        Ok((text, at))
    }

    /// Shows the last commits.
    pub fn log(
        &self,
        working_dir: &str,
        range: Option<&str>,
        max_count: Option<u32>,
        replies: &[Reply],
        at: usize,
    ) -> (r: Flow<String, ToolError>)
        ensures
            flow_view(r) == log_tool(
                working_dir@,
                range.deep_view(),
                max_count,
                replies.deep_view(),
                at as nat,
            ),
    {
        let count: u32 = match max_count {
            Some(n) => n,
            None => 20,
        };
        let (entries, at) = lift(git::log(working_dir, range, count, replies, at))?;
        Ok((render_log(entries.as_slice()), at))
    }

    /// Moves the head without losing anything.
    pub fn safe_reset(
        &self,
        working_dir: &str,
        mode: Option<&str>,
        target: Option<&str>,
        replies: &[Reply],
        at: usize,
    ) -> (r: Flow<String, ToolError>)
        ensures
            flow_view(r) == safe_reset_tool(
                working_dir@,
                mode.deep_view(),
                target.deep_view(),
                replies.deep_view(),
                at as nat,
            ),
    {
        let chosen = match mode {
            Some(m) => m,
            None => "mixed",
        };
        let goal = match target {
            Some(t) => t,
            None => "HEAD~1",
        };
        let (result, at) = lift(git::reset(working_dir, chosen, goal, replies, at))?;
        let text = "Reset completed (".to_string().concat(result.mode.as_str()).concat(
            ").\n- Previous HEAD: ",
        ).concat(result.previous_head.as_str()).concat("\n- New HEAD: ").concat(
            result.new_head.as_str(),
        ).concat("\n- Target: ").concat(goal).concat("\nTo undo: git reset --soft ").concat(
            result.previous_head.as_str(),
        );
        Ok((text, at))
    }
}

} // verus!
