//! What the client is answered, word for word.

use vstd::prelude::*;
use crate::domain::error::DomainErrorView;
use crate::domain::session::WorktreeSessionView;
use crate::domain::worktree::{
    BranchStatusView, CommitResultView, DiffResultView, IsPushedResultView, LogEntryView,
    MergeResultView, RemoteEntryView, RepoStatusView, ResetResultView, ResetTargetResultView,
    TagPushStatusView, UnpushedCommitsView, WorktreeStateView, WorktreeView,
};
use crate::infra::git::branch::{branch_delete_flow, merge_flow};
use crate::infra::git::inspect::{
    branch_status_flow, is_pushed_flow, reset_target_flow, tag_pushed_flow, unpushed_flow,
    worktree_state_flow,
};
use crate::infra::git::path::{joined_path, worktree_path_of};
use crate::infra::git::remote::{fetch_flow, remote_list_flow};
use crate::infra::git::working::{
    commit_flow, diff_flow, log_flow, reset_flow, status_flow, DiffOptionsView,
};
use crate::infra::git::worktree::{worktree_add_flow, worktree_list_flow, worktree_remove_flow};
use crate::infra::session_store::{
    load_flow, register_flow, store_of, unregister_flow, verify_owner_flow,
};
use crate::interface::mcp::call::{
    after_call, call_flow, tool_flow, tool_of, ToolCallView, ToolOutputView,
};
use crate::interface::mcp::mode::{holds_back, ToolErrorView};
use crate::interface::mcp::server::{after_session_start, ServerView};
use crate::interface::mcp::tools::{
    entry_line, file_lines, fits, fitting_owner, log_text, owner_at, record_on, worktree_line,
    worktrees_text, Fit,
};
use crate::laws::answers::law_every_worktree_is_listed;
use crate::laws::transcripts::after_flag;
use crate::protocol::{ActionView, FlowView, HaltView, ReplyView};
use crate::text::{closes_with, decimal_of, holds, joined, lines_of};

verus! {

// ---------------------------------------------------------------------------
// Answers
// ---------------------------------------------------------------------------

/// What a tool makes of an operation: what follows where it succeeds, and else its
/// message as an internal error.
pub open spec fn carried<T>(
    f: FlowView<T, DomainErrorView>,
    next: spec_fn(T, nat) -> FlowView<ToolOutputView, ToolErrorView>,
) -> FlowView<ToolOutputView, ToolErrorView> {
    match f {
        Ok((v, n)) => next(v, n),
        Err(HaltView::Ask(a)) => Err(HaltView::Ask(a)),
        Err(HaltView::Mismatch) => Err(HaltView::Mismatch),
        Err(HaltView::Fail(e, n)) => Err(HaltView::Fail(ToolErrorView::Internal(e.message()), n)),
    }
}

/// A text as the answer.
pub open spec fn says(text: Seq<char>, n: nat) -> FlowView<ToolOutputView, ToolErrorView> {
    Ok((ToolOutputView::Text(text), n))
}

/// An internal error.
pub open spec fn fails(text: Seq<char>, n: nat) -> FlowView<ToolOutputView, ToolErrorView> {
    Err(HaltView::Fail(ToolErrorView::Internal(text), n))
}

/// What the messages of the errors say.
pub proof fn law_errors_say_what_went_wrong(s: Seq<char>, owner: Seq<char>, caller: Seq<char>)
    ensures
        (DomainErrorView::SessionMismatch { worktree: s, owner, caller }).message()
            == "session mismatch: worktree '"@ + s + "' belongs to session '"@ + owner
            + "', not '"@ + caller + "'"@,
        DomainErrorView::WorktreeNotFound(s).message() == "worktree not found: "@ + s,
        DomainErrorView::WorktreeAlreadyExists(s).message() == "worktree already exists: "@ + s,
        DomainErrorView::BranchNotFound(s).message() == "branch not found: "@ + s,
        DomainErrorView::Git(s).message() == "git error: "@ + s,
        DomainErrorView::Io(s).message() == "io error: "@ + s,
        DomainErrorView::Lock(s).message() == "file lock error: "@ + s,
{
}

// ---------------------------------------------------------------------------
// Looking
// ---------------------------------------------------------------------------

/// The text of a status: the branch, whether the directory is clean, and the changed
/// files, with their number, where there are any.
pub open spec fn status_says(s: RepoStatusView) -> Seq<char> {
    let head = "Branch: "@ + s.branch + "\nClean: "@ + (if s.clean {
        "true"@
    } else {
        "false"@
    }) + "\n"@;
    if s.changed_files.len() == 0 {
        head
    } else {
        head + decimal_of(s.changed_files.len()) + " changed file(s):\n"@ + file_lines(
            s.changed_files,
        )
    }
}

/// The text of a diff: the statistics and the patch, or the one there is.
pub open spec fn diff_says(d: DiffResultView, max_lines: Option<u32>) -> Seq<char> {
    let shown = match max_lines {
        Some(max) => if lines_of(d.diff).len() > max {
            joined(lines_of(d.diff).take(max as int), "\n"@) + "\n... (truncated, showing "@
                + decimal_of(max as nat) + "/"@ + decimal_of(lines_of(d.diff).len()) + " lines)"@
        } else {
            d.diff
        },
        None => d.diff,
    };
    if d.stat.len() > 0 {
        d.stat + "\n\n"@ + shown
    } else if shown.len() > 0 {
        shown
    } else {
        "No changes."@
    }
}

/// The text of a log: a line for each commit, the hash first.
pub open spec fn log_says(entries: Seq<LogEntryView>) -> Seq<char> {
    if entries.len() == 0 {
        "No commits."@
    } else {
        joined(entries.map_values(|e: LogEntryView| e.hash + " "@ + e.message), "\n"@)
    }
}

/// The text of a reset, with the command that undoes it.
pub open spec fn reset_says(r: ResetResultView, target: Seq<char>) -> Seq<char> {
    "Reset completed ("@ + r.mode + ").\n- Previous HEAD: "@ + r.previous_head + "\n- New HEAD: "@
        + r.new_head + "\n- Target: "@ + target + "\nTo undo: git reset --soft "@ + r.previous_head
}

/// Every changed file has a line of its own, two spaces in.
pub proof fn law_changed_files_are_listed(files: Seq<Seq<char>>, file: Seq<char>)
    ensures
        file_lines(seq![]) == Seq::<char>::empty(),
        file_lines(files.push(file)) == file_lines(files) + ("  "@ + file + "\n"@),
{
    assert(files.push(file).drop_last() =~= files);
}

/// The tools on one working directory answer with what the operation of their name
/// comes to, run in that directory with what the client chose; a log shows twenty commits
/// and a reset goes back one commit, mixed, where the client chose nothing else.
pub proof fn law_working_calls_answer(
    server: ServerView,
    call: ToolCallView,
    replies: Seq<ReplyView>,
    at: nat,
)
    requires
        !holds_back(server.mode, tool_of(call)),
    ensures
        ({
            let c = call_flow(server, call, replies, at);
            match call {
                ToolCallView::Status { working_dir } => c == carried(
                    status_flow(working_dir, replies, at),
                    |s: RepoStatusView, n: nat| says(status_says(s), n),
                ),
                ToolCallView::Diff(r) => c == if r.staged == Some(true) && r.commit_range is Some {
                    fails("staged and commit_range cannot be used together"@, at)
                } else {
                    carried(
                        diff_flow(
                            r.working_dir,
                            DiffOptionsView {
                                staged: r.staged == Some(true),
                                commit_range: r.commit_range,
                                paths: r.paths,
                                name_only: r.name_only == Some(true),
                            },
                            replies,
                            at,
                        ),
                        |d: DiffResultView, n: nat| says(diff_says(d, r.max_lines), n),
                    )
                },
                ToolCallView::Log { working_dir, range, max_count } => c == carried(
                    log_flow(
                        working_dir,
                        range,
                        if max_count is Some {
                            max_count->0
                        } else {
                            20
                        },
                        replies,
                        at,
                    ),
                    |entries: Seq<LogEntryView>, n: nat| says(log_says(entries), n),
                ),
                ToolCallView::Commit { working_dir, message, paths } => c == carried(
                    commit_flow(working_dir, message, paths, replies, at),
                    |r: CommitResultView, n: nat|
                        says(
                            "Committed.\n- Hash: "@ + r.hash + "\n- Message: "@ + r.message
                                + "\n- Files changed: "@ + decimal_of(r.files_changed as nat),
                            n,
                        ),
                ),
                ToolCallView::SafeReset { working_dir, mode, target } => {
                    let goal = if target is Some {
                        target->0
                    } else {
                        "HEAD~1"@
                    };
                    let how = if mode is Some {
                        mode->0
                    } else {
                        "mixed"@
                    };
                    c == carried(
                        reset_flow(working_dir, how, goal, replies, at),
                        |r: ResetResultView, n: nat| says(reset_says(r, goal), n),
                    )
                },
                ToolCallView::Fetch { working_dir, remote, refspec, prune } => c == carried(
                    fetch_flow(working_dir, remote, refspec, prune, replies, at),
                    |text: Seq<char>, n: nat| says(text, n),
                ),
                _ => true,
            }
        }),
{
    reveal(tool_flow);
    assert forall|entries: Seq<LogEntryView>| #[trigger] log_says(entries)
        == log_text(entries) by {
        assert(entries.map_values(|e: LogEntryView| e.hash + " "@ + e.message)
            =~= entries.map_values(|e: LogEntryView| entry_line(e)));
    }
}

/// The questions about branches and history answer with the fields that the operation
/// of their name comes to.
pub proof fn law_inspecting_calls_answer(
    server: ServerView,
    call: ToolCallView,
    replies: Seq<ReplyView>,
    at: nat,
)
    requires
        !holds_back(server.mode, tool_of(call)),
    ensures
        ({
            let c = call_flow(server, call, replies, at);
            match call {
                ToolCallView::RemoteList { working_dir } => c == carried(
                    remote_list_flow(working_dir, replies, at),
                    |r: Seq<RemoteEntryView>, n: nat| Ok((ToolOutputView::Remotes(r), n)),
                ),
                ToolCallView::BranchStatus { working_dir, branch, base } => c == carried(
                    branch_status_flow(working_dir, branch, base, replies, at),
                    |b: BranchStatusView, n: nat| Ok((ToolOutputView::Branch(b), n)),
                ),
                ToolCallView::UnpushedCommits { working_dir, branch, remote } => c == carried(
                    unpushed_flow(working_dir, branch, remote, replies, at),
                    |u: UnpushedCommitsView, n: nat| Ok((ToolOutputView::Unpushed(u), n)),
                ),
                ToolCallView::IsPushed { working_dir, commit, remote } => c == carried(
                    is_pushed_flow(working_dir, commit, remote, replies, at),
                    |p: IsPushedResultView, n: nat| Ok((ToolOutputView::Pushed(p), n)),
                ),
                ToolCallView::TagPushed { working_dir, tag, remote } => c == carried(
                    tag_pushed_flow(working_dir, tag, remote, replies, at),
                    |t: TagPushStatusView, n: nat| Ok((ToolOutputView::Tag(t), n)),
                ),
                ToolCallView::ResetTarget { working_dir, steps_back, from } => c == carried(
                    reset_target_flow(working_dir, steps_back, from, replies, at),
                    |t: ResetTargetResultView, n: nat| Ok((ToolOutputView::Target(t), n)),
                ),
                ToolCallView::WorktreeState { working_dir, branch } => c == carried(
                    worktree_state_flow(working_dir, branch, replies, at),
                    |s: WorktreeStateView, n: nat| Ok((ToolOutputView::State(s), n)),
                ),
                _ => true,
            }
        }),
{
    reveal(tool_flow);
}

// ---------------------------------------------------------------------------
// Sessions
// ---------------------------------------------------------------------------

/// A session starts where `.git` or else `HEAD` is in the directory, and the answer
/// names the session and the directory.
pub proof fn law_sessions_start_in_repositories(
    server: ServerView,
    root: Seq<char>,
    replies: Seq<ReplyView>,
    at: nat,
)
    requires
        !holds_back(server.mode, "session_start"@),
    ensures
        ({
            let text = "Session started.\n- Session ID: "@ + server.session_id + "\n- Repo root: "@
                + root;
            call_flow(server, ToolCallView::SessionStart { repo_root: root }, replies, at)
                == after_flag(
                ActionView::PathExists { path: joined_path(root, ".git"@) },
                replies,
                at,
                says(text, at + 1),
                after_flag(
                    ActionView::PathExists { path: joined_path(root, "HEAD"@) },
                    replies,
                    at + 1,
                    says(text, at + 2),
                    fails("not a git repository: "@ + root, at + 2),
                ),
            )
        }),
{
    reveal(tool_flow);
}

/// Only a session that starts changes the connection, and only the repository in it.
pub proof fn law_only_starting_changes_the_connection(
    server: ServerView,
    call: ToolCallView,
    outcome: FlowView<ToolOutputView, ToolErrorView>,
)
    ensures
        ({
            let after = after_call(server, call, outcome);
            &&& after.session_id == server.session_id
            &&& after.mode == server.mode
            &&& after.repo_root == match call {
                ToolCallView::SessionStart { repo_root } => if outcome is Ok {
                    Some(repo_root)
                } else {
                    server.repo_root
                },
                _ => server.repo_root,
            }
        }),
        call matches ToolCallView::SessionStart { repo_root } ==> forall|
            started: FlowView<Seq<char>, ToolErrorView>,
        |
            started is Ok == outcome is Ok ==> #[trigger] after_session_start(
                server,
                repo_root,
                started,
            ) == after_call(server, call, outcome),
{
}

/// What follows from the records: those that could be read, or else none.
pub open spec fn with_records(
    root: Seq<char>,
    replies: Seq<ReplyView>,
    at: nat,
    next: spec_fn(Seq<WorktreeSessionView>, nat) -> FlowView<ToolOutputView, ToolErrorView>,
) -> FlowView<ToolOutputView, ToolErrorView> {
    match load_flow(store_of(root), replies, at) {
        Ok((sessions, n)) => next(sessions, n),
        Err(HaltView::Fail(_, n)) => next(seq![], n),
        Err(HaltView::Ask(a)) => Err(HaltView::Ask(a)),
        Err(HaltView::Mismatch) => Err(HaltView::Mismatch),
    }
}

/// What follows where the caller may act on a branch: the first record of the branch is
/// the caller's, or there is none.
pub open spec fn with_branch(
    server: ServerView,
    sessions: Seq<WorktreeSessionView>,
    branch: Seq<char>,
    n: nat,
    next: FlowView<ToolOutputView, ToolErrorView>,
) -> FlowView<ToolOutputView, ToolErrorView> {
    match record_on(sessions, branch) {
        Some(record) => if record.session_id == server.session_id {
            next
        } else {
            fails(
                (DomainErrorView::SessionMismatch {
                    worktree: record.worktree_name,
                    owner: record.session_id,
                    caller: server.session_id,
                }).message(),
                n,
            )
        },
        None => next,
    }
}

/// The tools on worktrees and their branches work on the repository of the session and
/// on its records, one operation after the other, and answer with what was done.
pub proof fn law_session_calls_answer(
    server: ServerView,
    root: Seq<char>,
    call: ToolCallView,
    replies: Seq<ReplyView>,
    at: nat,
)
    requires
        server.repo_root == Some(root),
        !holds_back(server.mode, tool_of(call)),
    ensures
        ({
            let c = call_flow(server, call, replies, at);
            let store = store_of(root);
            let id = server.session_id;
            match call {
                ToolCallView::WorktreeAdd { name, branch, base_branch } => c == carried(
                    worktree_add_flow(root, name, branch, base_branch, replies, at),
                    |path: Seq<char>, n: nat|
                        carried(
                            register_flow(store, name, branch, id, replies, n),
                            |_done: (), n: nat|
                                says(
                                    "Worktree created.\n- Path: "@ + path + "\n- Branch: "@ + branch
                                        + "\n- Session: "@ + id,
                                    n,
                                ),
                        ),
                ),
                ToolCallView::WorktreeRemove { name } => c == carried(
                    verify_owner_flow(store, name, id, replies, at),
                    |_done: (), n: nat|
                        carried(
                            worktree_remove_flow(root, name, replies, n),
                            |_done: (), n: nat|
                                carried(
                                    unregister_flow(store, name, replies, n),
                                    |_done: (), n: nat|
                                        says("Worktree '"@ + name + "' removed."@, n),
                                ),
                        ),
                ),
                ToolCallView::SessionRelease { name } => c == carried(
                    unregister_flow(store, name, replies, at),
                    |_done: (), n: nat|
                        says("Session ownership released for worktree '"@ + name + "'."@, n),
                ),
                ToolCallView::WorktreeList => c == carried(
                    worktree_list_flow(root, replies, at),
                    |worktrees: Seq<WorktreeView>, n: nat|
                        with_records(
                            root,
                            replies,
                            n,
                            |sessions: Seq<WorktreeSessionView>, n: nat|
                                says(worktrees_text(worktrees, root, sessions, id), n),
                        ),
                ),
                ToolCallView::BranchDelete { branch, working_dir } => c == with_records(
                    root,
                    replies,
                    at,
                    |sessions: Seq<WorktreeSessionView>, n: nat|
                        with_branch(
                            server,
                            sessions,
                            branch,
                            n,
                            carried(
                                branch_delete_flow(root, branch, working_dir, replies, n),
                                |_done: (), n: nat| says("Branch '"@ + branch + "' deleted."@, n),
                            ),
                        ),
                ),
                ToolCallView::Merge { branch, into_branch, working_dir } => c == with_records(
                    root,
                    replies,
                    at,
                    |sessions: Seq<WorktreeSessionView>, n: nat|
                        with_branch(
                            server,
                            sessions,
                            branch,
                            n,
                            carried(
                                merge_flow(root, branch, into_branch, working_dir, replies, n),
                                |r: MergeResultView, n: nat|
                                    says(
                                        "Merged '"@ + r.merged_branch + "' into '"@ + r.into_branch
                                            + "'.\n"@ + r.summary,
                                        n,
                                    ),
                            ),
                        ),
                ),
                _ => true,
            }
        }),
{
    reveal(tool_flow);
}

/// Without a session, the tools on worktrees and their branches say how to start one.
pub proof fn law_sessions_are_asked_for(
    server: ServerView,
    call: ToolCallView,
    replies: Seq<ReplyView>,
    at: nat,
)
    requires
        server.repo_root is None,
        !holds_back(server.mode, tool_of(call)),
        call is WorktreeAdd || call is WorktreeRemove || call is SessionRelease
            || call is WorktreeList || call is BranchDelete || call is Merge,
    ensures
        call_flow(server, call, replies, at) == fails(
            "session not started: call session_start(repo_root) first"@,
            at,
        ),
{
    reveal(tool_flow);
}

// ---------------------------------------------------------------------------
// Records
// ---------------------------------------------------------------------------

/// The first record on a branch counts for it.
pub proof fn law_the_first_record_of_a_branch_counts(
    sessions: Seq<WorktreeSessionView>,
    branch: Seq<char>,
    k: int,
)
    requires
        0 <= k <= sessions.len(),
        forall|i: int| 0 <= i < k ==> (#[trigger] sessions[i]).branch != branch,
        k < sessions.len() ==> sessions[k].branch == branch,
    ensures
        record_on(sessions, branch) == if k < sessions.len() {
            Some(sessions[k])
        } else {
            None
        },
    decreases sessions.len(),
{
    if k > 0 {
        assert(sessions[0].branch != branch);
        let rest = sessions.drop_first();
        assert forall|i: int| 0 <= i < k - 1 implies (#[trigger] rest[i]).branch != branch by {
            assert(rest[i] == sessions[i + 1]);
        }
        law_the_first_record_of_a_branch_counts(rest, branch, k - 1);
    }
}

/// The line of a worktree has its path, its branch or that it has none, and its owner:
/// the session, marked where it is the caller's, or that nobody keeps track of it.
pub proof fn law_worktree_lines_name_the_owner(
    worktree: WorktreeView,
    root: Seq<char>,
    sessions: Seq<WorktreeSessionView>,
    caller: Seq<char>,
)
    ensures
        ({
            let start = "- "@ + worktree.path + " ["@ + (if worktree.branch is Some {
                worktree.branch->0
            } else {
                "(detached)"@
            }) + "] owner="@;
            worktree_line(worktree, root, sessions, caller) == start + match owner_at(
                sessions,
                root,
                worktree.path,
            ) {
                Some(id) => if id == caller {
                    "session:"@ + id + " (this session)"@
                } else {
                    "session:"@ + id
                },
                None => "untracked"@,
            }
        }),
{
    if let Some(id) = owner_at(sessions, root, worktree.path) {
        assert("session:"@ + id + seq![] =~= "session:"@ + id);
    }
}

/// The worktrees are shown one to a line, and where there are none, that is said.
pub proof fn law_worktrees_are_shown_in_lines(
    worktrees: Seq<WorktreeView>,
    root: Seq<char>,
    sessions: Seq<WorktreeSessionView>,
    caller: Seq<char>,
)
    ensures
        worktrees_text(worktrees, root, sessions, caller) == if worktrees.filter(
            |w: WorktreeView| !w.is_bare,
        ).len() == 0 {
            "No worktrees (besides main)."@
        } else {
            joined(
                worktrees.filter(|w: WorktreeView| !w.is_bare).map_values(
                    |w: WorktreeView| worktree_line(w, root, sessions, caller),
                ),
                "\n"@,
            )
        },
{
    law_every_worktree_is_listed(worktrees, root, sessions, caller);
}

/// The first record that fits gives the owner.
pub proof fn law_the_first_record_that_fits_counts(
    sessions: Seq<WorktreeSessionView>,
    root: Seq<char>,
    path: Seq<char>,
    fit: Fit,
    k: int,
)
    requires
        0 <= k <= sessions.len(),
        forall|i: int|
            0 <= i < k ==> !fits(root, path, (#[trigger] sessions[i]).worktree_name, fit),
        k < sessions.len() ==> fits(root, path, sessions[k].worktree_name, fit),
    ensures
        fitting_owner(sessions, root, path, fit) == if k < sessions.len() {
            Some(sessions[k].session_id)
        } else {
            None
        },
    decreases sessions.len(),
{
    if k > 0 {
        assert(!fits(root, path, sessions[0].worktree_name, fit));
        let rest = sessions.drop_first();
        assert forall|i: int| 0 <= i < k - 1 implies !fits(
            root,
            path,
            (#[trigger] rest[i]).worktree_name,
            fit,
        ) by {
            assert(rest[i] == sessions[i + 1]);
        }
        law_the_first_record_that_fits_counts(rest, root, path, fit, k - 1);
    }
}

/// The owner of a worktree is that of the first record whose place it is; or else that
/// of the first record whose name stands behind `/.worktrees/` at the end of the path; or
/// else, where the path has no `/.worktrees/` in it, that of the first record whose name
/// is the end of the path; or else nobody.
pub proof fn law_owners_are_found_by_place_then_by_name(
    sessions: Seq<WorktreeSessionView>,
    root: Seq<char>,
    path: Seq<char>,
)
    ensures
        owner_at(sessions, root, path) == match fitting_owner(sessions, root, path, Fit::Place) {
            Some(id) => Some(id),
            None => match fitting_owner(sessions, root, path, Fit::Ending) {
                Some(id) => Some(id),
                None => fitting_owner(sessions, root, path, Fit::Name),
            },
        },
        forall|name: Seq<char>| #[trigger]
            fits(root, path, name, Fit::Place) <==> path == worktree_path_of(root, name),
        forall|name: Seq<char>| #[trigger]
            fits(root, path, name, Fit::Ending) <==> closes_with(path, "/.worktrees/"@ + name),
        forall|name: Seq<char>| #[trigger]
            fits(root, path, name, Fit::Name) <==> !holds(path, "/.worktrees/"@) && closes_with(
                path,
                "/"@ + name,
            ),
{
}

} // verus!
