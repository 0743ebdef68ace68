//! What a call may ask for.

use vstd::prelude::*;
use crate::domain::worktree::WorktreeView;
use crate::infra::git::branch::{among_flow, known_dir_flow, merge_args, run_dir_of};
use crate::infra::git::inspect::{
    branch_flow, branch_status_flow, distance_flow, is_pushed_flow, reset_target_flow,
    tag_pushed_flow, unpushed_flow, upstream_flow, worktree_state_flow,
};
use crate::infra::git::path::{home_flow, is_absolute, is_rooted, joined_path, worktree_path_of};
use crate::infra::git::remote::{
    fetch_args, fetch_flow, is_refspec, is_remote_name, remote_list_flow,
};
use crate::infra::git::working::{add_args, is_safe_mode};
use crate::infra::git::worktree::{
    allow_dirty_variable, worktree_add_flow, worktree_list_flow, worktree_remove_flow,
};
use crate::infra::session_store::{
    load_flow, register_flow, store_of, unregister_flow, verify_owner_flow, SessionStoreView,
};
use crate::interface::mcp::call::{call_flow, tool_flow, ToolCallView, ToolOutputView};
use crate::interface::mcp::mode::ToolErrorView;
use crate::interface::mcp::server::{session_start_flow, ServerView};
use crate::interface::mcp::tools::{
    branch_delete_tool, branch_guard, commit_tool, diff_tool, log_tool, merge_tool, safe_reset_tool,
    session_release_tool, status_tool, worktree_add_tool, worktree_list_tool, worktree_remove_tool,
    DiffRequestView,
};
use crate::protocol::{canonical, ActionView, FlowView, HaltView, ReplyView};
use crate::text::decimal_of;

verus! {

// ---------------------------------------------------------------------------
// Commands
// ---------------------------------------------------------------------------

/// The git commands that only look at what is there.
pub open spec fn only_looks(args: Seq<Seq<char>>) -> bool {
    ||| args == seq!["branch"@, "--show-current"@]
    ||| args == seq!["worktree"@, "list"@, "--porcelain"@]
    ||| args == seq!["remote"@, "-v"@]
    ||| args.len() > 0 && is_query(args[0])
}

/// The first words of the git commands that only look, whatever follows.
pub open spec fn is_query(word: Seq<char>) -> bool {
    ||| word == "status"@
    ||| word == "diff"@
    ||| word == "log"@
    ||| word == "rev-parse"@
    ||| word == "show-ref"@
    ||| word == "rev-list"@
    ||| word == "merge-base"@
    ||| word == "for-each-ref"@
    ||| word == "ls-remote"@
}

/// Whether the absolute path of the repository `root` may be `home`: it is as it was
/// given, or else the system makes it absolute.
pub open spec fn may_be_home(root: Seq<char>, home: Seq<char>) -> bool {
    is_absolute(home) && (is_rooted(root) ==> home == root)
}

/// Whether the new worktree `name` of the repository `root` may go to `path`.
pub open spec fn may_be_made_at(root: Seq<char>, name: Seq<char>, path: Seq<char>) -> bool {
    exists|home: Seq<char>|
        may_be_home(root, home) && path == #[trigger] worktree_path_of(home, name)
}

/// The git commands that a tool may run, and where it may run them, in a session with
/// the repository `root`: next to those that only look, each tool has its own and no
/// others.
pub open spec fn may_run(
    root: Option<Seq<char>>,
    call: ToolCallView,
    dir: Seq<char>,
    args: Seq<Seq<char>>,
) -> bool {
    match call {
        ToolCallView::SessionStart { .. } => false,
        ToolCallView::SessionRelease { .. } => false,
        ToolCallView::WorktreeAdd { name, branch, base_branch } => {
            ||| only_looks(args)
            ||| root == Some(dir) && base_branch is None && args == seq!["branch"@, branch]
            ||| root == Some(dir) && base_branch is Some && args == seq![
                "branch"@,
                branch,
                base_branch->0,
            ]
            ||| root == Some(dir) && args.len() == 4 && may_be_made_at(dir, name, args[2]) && args
                == seq!["worktree"@, "add"@, args[2], branch]
        },
        ToolCallView::WorktreeRemove { name } => root == Some(dir) && args == seq![
            "worktree"@,
            "remove"@,
            "--force"@,
            worktree_path_of(dir, name),
        ],
        ToolCallView::WorktreeList => root == Some(dir) && args == seq![
            "worktree"@,
            "list"@,
            "--porcelain"@,
        ],
        ToolCallView::BranchDelete { branch, working_dir } => root is Some && {
            ||| dir == root->0 && args == seq!["worktree"@, "list"@, "--porcelain"@]
            ||| dir == run_dir_of(root->0, working_dir) && args == seq!["branch"@, "-d"@, branch]
        },
        ToolCallView::Merge { branch, working_dir, .. } => root is Some && dir == run_dir_of(
            root->0,
            working_dir,
        ) && (only_looks(args) || args == merge_args(branch)),
        ToolCallView::Commit { working_dir, message, paths } => dir == working_dir && {
            ||| only_looks(args)
            ||| args == add_args(paths)
            ||| args == seq!["commit"@, "-m"@, message]
        },
        ToolCallView::SafeReset { working_dir, mode, target } => dir == working_dir && {
            let chosen = match mode {
                Some(m) => m,
                None => "mixed"@,
            };
            let goal = match target {
                Some(t) => t,
                None => "HEAD~1"@,
            };
            ||| only_looks(args)
            ||| is_safe_mode(chosen) && args == seq!["reset"@, "--"@ + chosen, goal]
        },
        ToolCallView::Status { working_dir } => dir == working_dir && only_looks(args),
        ToolCallView::Diff(request) => dir == request.working_dir && args.len() > 0 && args[0]
            == "diff"@,
        ToolCallView::Log { working_dir, .. } => dir == working_dir && args.len() > 0 && args[0]
            == "log"@,
        ToolCallView::Fetch { working_dir, remote, refspec, prune } => {
            &&& dir == working_dir
            &&& args == fetch_args(remote, refspec, prune)
            &&& remote is Some ==> is_remote_name(remote->0)
            &&& refspec is Some ==> is_refspec(refspec->0)
        },
        ToolCallView::RemoteList { working_dir } => dir == working_dir && args == seq![
            "remote"@,
            "-v"@,
        ],
        ToolCallView::BranchStatus { working_dir, .. } => dir == working_dir && only_looks(args),
        ToolCallView::UnpushedCommits { working_dir, .. } => dir == working_dir && only_looks(args),
        ToolCallView::IsPushed { working_dir, .. } => dir == working_dir && only_looks(args),
        ToolCallView::TagPushed { working_dir, tag, remote } => dir == working_dir && args == seq![
            "ls-remote"@,
            "--tags"@,
            remote,
            "refs/tags/"@ + tag,
        ],
        ToolCallView::ResetTarget { working_dir, steps_back, from } => dir == working_dir && args
            == seq![
            "log"@,
            "--first-parent"@,
            "--format=%H%x09%P%x09%s"@,
            "-n"@,
            decimal_of((steps_back + 1) as nat),
            from,
        ],
        ToolCallView::WorktreeState { working_dir, .. } => dir == working_dir && only_looks(args),
    }
}

/// The calls that work on the session records.
pub open spec fn on_records(call: ToolCallView) -> bool {
    ||| call is WorktreeAdd
    ||| call is WorktreeRemove
    ||| call is SessionRelease
    ||| call is WorktreeList
    ||| call is BranchDelete
    ||| call is Merge
}

/// What a call may ask for.
pub open spec fn may_ask(server: ServerView, call: ToolCallView, a: ActionView) -> bool {
    let root = server.repo_root;
    let ours = on_records(call) && root is Some;
    let store = store_of(root->0);
    match a {
        ActionView::Git { dir, args } => may_run(root, call, dir, args),
        ActionView::PathExists { path } => {
            ||| call matches ToolCallView::SessionStart { repo_root } && (path == joined_path(
                repo_root,
                ".git"@,
            ) || path == joined_path(repo_root, "HEAD"@))
            ||| ours && path == store.path
            ||| call matches ToolCallView::WorktreeAdd { name, .. } && root is Some
                && may_be_made_at(root->0, name, path)
            ||| call matches ToolCallView::WorktreeRemove { name } && root is Some && path
                == worktree_path_of(root->0, name)
        },
        ActionView::IsDirectory { path } => {
            ||| call matches ToolCallView::BranchDelete { working_dir, .. } && working_dir == Some(
                path,
            )
            ||| call matches ToolCallView::Merge { working_dir, .. } && working_dir == Some(path)
        },
        ActionView::Canonicalize { .. } => call is BranchDelete,
        ActionView::MakeAbsolute { path } => call is WorktreeAdd && root == Some(path)
            && !is_rooted(path),
        ActionView::ReadVariable { name } => call is WorktreeAdd && name == allow_dirty_variable(),
        ActionView::ReadClock => call is WorktreeAdd,
        ActionView::CreateDirAll { path } => ours && path == store.dir,
        ActionView::OpenLock { path } => ours && path == store.lock_path,
        ActionView::LockExclusive { path } => ours && path == store.lock_path,
        ActionView::Unlock { path } => ours && path == store.lock_path,
        ActionView::ReadSessions { path } => ours && path == store.path,
        ActionView::WriteSessions { path, .. } => ours && path == store.path && (
        call is WorktreeAdd || call is WorktreeRemove || call is SessionRelease),
    }
}

/// What an operation asks for, where it asks.
pub open spec fn asked<T, E>(f: FlowView<T, E>) -> Option<ActionView> {
    match f {
        Err(HaltView::Ask(a)) => Some(a),
        _ => None,
    }
}

/// Looking for a directory among the worktrees only resolves paths.
proof fn lemma_among_asks(
    worktrees: Seq<WorktreeView>,
    target: Seq<char>,
    replies: Seq<ReplyView>,
    at: nat,
)
    ensures
        asked(among_flow(worktrees, target, replies, at)) is Some ==> asked(
            among_flow(worktrees, target, replies, at),
        )->0 is Canonicalize,
    decreases worktrees.len(),
{
    if worktrees.len() > 0 {
        if let Ok((_, n)) = canonical(worktrees[0].path, replies, at) {
            lemma_among_asks(worktrees.drop_first(), target, replies, n);
        }
    }
}

/// Checking a directory resolves paths and lists the worktrees.
pub proof fn lemma_known_dir_asks(repo: Seq<char>, dir: Seq<char>, replies: Seq<ReplyView>, at: nat)
    ensures
        match asked(known_dir_flow(repo, dir, replies, at)) {
            Some(ActionView::Canonicalize { .. }) => true,
            Some(ActionView::Git { dir: d, args }) => d == repo && args == seq![
                "worktree"@,
                "list"@,
                "--porcelain"@,
            ],
            Some(_) => false,
            None => true,
        },
{
    assert forall|worktrees: Seq<WorktreeView>, target: Seq<char>, n: nat|
        #![trigger among_flow(worktrees, target, replies, n)]
        asked(among_flow(worktrees, target, replies, n)) is Some ==> asked(
            among_flow(worktrees, target, replies, n),
        )->0 is Canonicalize by {
        lemma_among_asks(worktrees, target, replies, n);
    }
}

/// What reading the records of a store asks for.
pub open spec fn reads_records(store: SessionStoreView, a: ActionView) -> bool {
    match a {
        ActionView::CreateDirAll { path } => path == store.dir,
        ActionView::OpenLock { path } => path == store.lock_path,
        ActionView::LockExclusive { path } => path == store.lock_path,
        ActionView::Unlock { path } => path == store.lock_path,
        ActionView::PathExists { path } => path == store.path,
        ActionView::ReadSessions { path } => path == store.path,
        _ => false,
    }
}

/// What changing the records of a store asks for.
pub open spec fn writes_records(store: SessionStoreView, a: ActionView) -> bool {
    reads_records(store, a) || (a matches ActionView::WriteSessions { path, .. } && path
        == store.path)
}

/// Whether an operation asks only for what `allowed` holds of.
pub open spec fn asks_only<T, E>(f: FlowView<T, E>, allowed: spec_fn(ActionView) -> bool) -> bool {
    asked(f) is Some ==> allowed(asked(f)->0)
}

/// Whether what a call comes to asks only for what its tool may ask for.
pub open spec fn keeps_to_its_own(
    server: ServerView,
    call: ToolCallView,
    f: FlowView<ToolOutputView, ToolErrorView>,
) -> bool {
    f matches Err(HaltView::Ask(a)) ==> may_ask(server, call, a)
}

/// Reading records.
pub proof fn lemma_load_asks(store: SessionStoreView, replies: Seq<ReplyView>, at: nat)
    ensures
        asks_only(load_flow(store, replies, at), |a: ActionView| reads_records(store, a)),
{
}

/// Checking an owner.
proof fn lemma_verify_asks(
    store: SessionStoreView,
    name: Seq<char>,
    caller: Seq<char>,
    replies: Seq<ReplyView>,
    at: nat,
)
    ensures
        asks_only(
            verify_owner_flow(store, name, caller, replies, at),
            |a: ActionView| reads_records(store, a),
        ),
{
    lemma_load_asks(store, replies, at);
}

/// Removing a worktree from git.
proof fn lemma_git_remove_asks(
    repo: Seq<char>,
    name: Seq<char>,
    replies: Seq<ReplyView>,
    at: nat,
)
    ensures
        asks_only(
            worktree_remove_flow(repo, name, replies, at),
            |a: ActionView|
                match a {
                    ActionView::PathExists { path } => path == worktree_path_of(repo, name),
                    ActionView::Git { dir, args } => dir == repo && args == seq![
                        "worktree"@,
                        "remove"@,
                        "--force"@,
                        worktree_path_of(repo, name),
                    ],
                    _ => false,
                },
        ),
{
}

/// Comparing branches only looks.
proof fn lemma_distance_asks(
    dir: Seq<char>,
    branch: Seq<char>,
    tracking: Option<Seq<char>>,
    replies: Seq<ReplyView>,
    at: nat,
)
    ensures
        asks_only(
            distance_flow(dir, branch, tracking, replies, at),
            |a: ActionView|
                a matches ActionView::Git { dir: d, args } && d == dir && only_looks(args),
        ),
{
}

/// Dropping records.
proof fn lemma_unregister_asks(
    store: SessionStoreView,
    name: Seq<char>,
    replies: Seq<ReplyView>,
    at: nat,
)
    ensures
        asks_only(
            unregister_flow(store, name, replies, at),
            |a: ActionView| writes_records(store, a),
        ),
{
}

/// Adding a record.
pub proof fn lemma_register_asks(
    store: SessionStoreView,
    name: Seq<char>,
    branch: Seq<char>,
    session_id: Seq<char>,
    replies: Seq<ReplyView>,
    at: nat,
)
    ensures
        asks_only(
            register_flow(store, name, branch, session_id, replies, at),
            |a: ActionView| writes_records(store, a) || a is ReadClock,
        ),
{
}

/// Making a worktree.
proof fn lemma_add_asks(
    server: ServerView,
    name: Seq<char>,
    branch: Seq<char>,
    base_branch: Option<Seq<char>>,
    replies: Seq<ReplyView>,
    at: nat,
)
    ensures
        worktree_add_tool(
            server,
            name,
            branch,
            base_branch,
            replies,
            at,
        ) matches Err(HaltView::Ask(a)) ==> may_ask(
            server,
            ToolCallView::WorktreeAdd { name, branch, base_branch },
            a,
        ),
{
    if let Some(root) = server.repo_root {
        if let Ok((home, _)) = home_flow(root, replies, at + 1) {
            let path = worktree_path_of(home, name);
            assert(may_be_home(root, home) && path == worktree_path_of(home, name));
            assert(may_be_made_at(root, name, path));
        }
        if let Ok((_, n)) = worktree_add_flow(root, name, branch, base_branch, replies, at) {
            lemma_register_asks(store_of(root), name, branch, server.session_id, replies, n);
        }
    }
}

/// Removing a worktree.
proof fn lemma_remove_asks(
    server: ServerView,
    name: Seq<char>,
    replies: Seq<ReplyView>,
    at: nat,
)
    ensures
        worktree_remove_tool(server, name, replies, at) matches Err(HaltView::Ask(a)) ==> may_ask(
            server,
            ToolCallView::WorktreeRemove { name },
            a,
        ),
{
    if let Some(root) = server.repo_root {
        let store = store_of(root);
        lemma_verify_asks(store, name, server.session_id, replies, at);
        if let Ok((_, n)) = verify_owner_flow(store, name, server.session_id, replies, at) {
            lemma_git_remove_asks(root, name, replies, n);
            if let Ok((_, n)) = worktree_remove_flow(root, name, replies, n) {
                lemma_unregister_asks(store, name, replies, n);
            }
        }
    }
}

/// Releasing a worktree.
proof fn lemma_release_asks(
    server: ServerView,
    name: Seq<char>,
    replies: Seq<ReplyView>,
    at: nat,
)
    ensures
        session_release_tool(server, name, replies, at) matches Err(HaltView::Ask(a)) ==> may_ask(
            server,
            ToolCallView::SessionRelease { name },
            a,
        ),
{
    if let Some(root) = server.repo_root {
        lemma_unregister_asks(store_of(root), name, replies, at);
    }
}

/// Listing the worktrees.
proof fn lemma_list_asks(
    server: ServerView,
    replies: Seq<ReplyView>,
    at: nat,
)
    ensures
        worktree_list_tool(server, replies, at) matches Err(HaltView::Ask(a)) ==> may_ask(
            server,
            ToolCallView::WorktreeList,
            a,
        ),
{
    if let Some(root) = server.repo_root {
        if let Ok((_, n)) = worktree_list_flow(root, replies, at) {
            lemma_load_asks(store_of(root), replies, n);
        }
    }
}

/// Deleting a branch.
proof fn lemma_delete_asks(
    server: ServerView,
    branch: Seq<char>,
    working_dir: Option<Seq<char>>,
    replies: Seq<ReplyView>,
    at: nat,
)
    ensures
        branch_delete_tool(
            server,
            branch,
            working_dir,
            replies,
            at,
        ) matches Err(HaltView::Ask(a)) ==> may_ask(
            server,
            ToolCallView::BranchDelete { branch, working_dir },
            a,
        ),
{
    if let Some(root) = server.repo_root {
        lemma_load_asks(store_of(root), replies, at);
        if let Ok((_, n)) = branch_guard(server, root, branch, replies, at) {
            if let Some(dir) = working_dir {
                lemma_known_dir_asks(root, dir, replies, n + 1);
            }
        }
    }
}

/// Merging.
proof fn lemma_merge_asks(
    server: ServerView,
    branch: Seq<char>,
    into_branch: Seq<char>,
    working_dir: Option<Seq<char>>,
    replies: Seq<ReplyView>,
    at: nat,
)
    ensures
        merge_tool(
            server,
            branch,
            into_branch,
            working_dir,
            replies,
            at,
        ) matches Err(HaltView::Ask(a)) ==> may_ask(
            server,
            ToolCallView::Merge { branch, into_branch, working_dir },
            a,
        ),
{
    if let Some(root) = server.repo_root {
        lemma_load_asks(store_of(root), replies, at);
    }
}

/// Committing.
proof fn lemma_commit_asks(
    server: ServerView,
    working_dir: Seq<char>,
    message: Seq<char>,
    paths: Option<Seq<Seq<char>>>,
    replies: Seq<ReplyView>,
    at: nat,
)
    ensures
        commit_tool(
            working_dir,
            message,
            paths,
            replies,
            at,
        ) matches Err(HaltView::Ask(a)) ==> may_ask(
            server,
            ToolCallView::Commit { working_dir, message, paths },
            a,
        ),
{
}

/// Comparing.
proof fn lemma_diff_asks(
    server: ServerView,
    request: DiffRequestView,
    replies: Seq<ReplyView>,
    at: nat,
)
    ensures
        diff_tool(request, replies, at) matches Err(HaltView::Ask(a)) ==> may_ask(
            server,
            ToolCallView::Diff(request),
            a,
        ),
{
}

/// Resetting.
proof fn lemma_reset_asks(
    server: ServerView,
    working_dir: Seq<char>,
    mode: Option<Seq<char>>,
    target: Option<Seq<char>>,
    replies: Seq<ReplyView>,
    at: nat,
)
    ensures
        safe_reset_tool(
            working_dir,
            mode,
            target,
            replies,
            at,
        ) matches Err(HaltView::Ask(a)) ==> may_ask(
            server,
            ToolCallView::SafeReset { working_dir, mode, target },
            a,
        ),
{
}

/// Looking at the state of a worktree.
proof fn lemma_state_asks(
    server: ServerView,
    working_dir: Seq<char>,
    branch: Option<Seq<char>>,
    replies: Seq<ReplyView>,
    at: nat,
)
    ensures
        worktree_state_flow(
            working_dir,
            branch,
            replies,
            at,
        ) matches Err(HaltView::Ask(a)) ==> may_ask(
            server,
            ToolCallView::WorktreeState { working_dir, branch },
            a,
        ),
{
    if let Ok((name, n)) = branch_flow(working_dir, branch, replies, at) {
        if let Ok((tracking, n)) = upstream_flow(working_dir, replies, n) {
            lemma_distance_asks(working_dir, name, tracking, replies, n);
        }
    }
}

/// Comparing branches.
proof fn lemma_status_asks(
    server: ServerView,
    working_dir: Seq<char>,
    branch: Seq<char>,
    base: Seq<char>,
    replies: Seq<ReplyView>,
    at: nat,
)
    ensures
        branch_status_flow(
            working_dir,
            branch,
            base,
            replies,
            at,
        ) matches Err(HaltView::Ask(a)) ==> may_ask(
            server,
            ToolCallView::BranchStatus { working_dir, branch, base },
            a,
        ),
{
}

/// Starting a session.
proof fn lemma_start_asks(
    server: ServerView,
    repo_root: Seq<char>,
    replies: Seq<ReplyView>,
    at: nat,
)
    ensures
        session_start_flow(
            server,
            repo_root,
            replies,
            at,
        ) matches Err(HaltView::Ask(a)) ==> may_ask(
            server,
            ToolCallView::SessionStart { repo_root },
            a,
        ),
{
}

/// Showing the status.
proof fn lemma_short_status_asks(
    server: ServerView,
    working_dir: Seq<char>,
    replies: Seq<ReplyView>,
    at: nat,
)
    ensures
        status_tool(working_dir, replies, at) matches Err(HaltView::Ask(a)) ==> may_ask(
            server,
            ToolCallView::Status { working_dir },
            a,
        ),
{
}

/// Showing the last commits.
proof fn lemma_log_asks(
    server: ServerView,
    working_dir: Seq<char>,
    range: Option<Seq<char>>,
    max_count: Option<u32>,
    replies: Seq<ReplyView>,
    at: nat,
)
    ensures
        log_tool(
            working_dir,
            range,
            max_count,
            replies,
            at,
        ) matches Err(HaltView::Ask(a)) ==> may_ask(
            server,
            ToolCallView::Log { working_dir, range, max_count },
            a,
        ),
{
}

/// Fetching.
proof fn lemma_fetch_asks(
    server: ServerView,
    working_dir: Seq<char>,
    remote: Option<Seq<char>>,
    refspec: Option<Seq<char>>,
    prune: bool,
    replies: Seq<ReplyView>,
    at: nat,
)
    ensures
        fetch_flow(
            working_dir,
            remote,
            refspec,
            prune,
            replies,
            at,
        ) matches Err(HaltView::Ask(a)) ==> may_ask(
            server,
            ToolCallView::Fetch { working_dir, remote, refspec, prune },
            a,
        ),
{
}

/// Listing the remotes.
proof fn lemma_remotes_asks(
    server: ServerView,
    working_dir: Seq<char>,
    replies: Seq<ReplyView>,
    at: nat,
)
    ensures
        remote_list_flow(working_dir, replies, at) matches Err(HaltView::Ask(a)) ==> may_ask(
            server,
            ToolCallView::RemoteList { working_dir },
            a,
        ),
{
}

/// Listing what is not pushed.
proof fn lemma_unpushed_asks(
    server: ServerView,
    working_dir: Seq<char>,
    branch: Seq<char>,
    remote: Seq<char>,
    replies: Seq<ReplyView>,
    at: nat,
)
    ensures
        unpushed_flow(
            working_dir,
            branch,
            remote,
            replies,
            at,
        ) matches Err(HaltView::Ask(a)) ==> may_ask(
            server,
            ToolCallView::UnpushedCommits { working_dir, branch, remote },
            a,
        ),
{
}

/// Asking whether a commit is pushed.
proof fn lemma_pushed_asks(
    server: ServerView,
    working_dir: Seq<char>,
    commit: Seq<char>,
    remote: Seq<char>,
    replies: Seq<ReplyView>,
    at: nat,
)
    ensures
        is_pushed_flow(
            working_dir,
            commit,
            remote,
            replies,
            at,
        ) matches Err(HaltView::Ask(a)) ==> may_ask(
            server,
            ToolCallView::IsPushed { working_dir, commit, remote },
            a,
        ),
{
}

/// Asking whether a tag is pushed.
proof fn lemma_tag_asks(
    server: ServerView,
    working_dir: Seq<char>,
    tag: Seq<char>,
    remote: Seq<char>,
    replies: Seq<ReplyView>,
    at: nat,
)
    ensures
        tag_pushed_flow(
            working_dir,
            tag,
            remote,
            replies,
            at,
        ) matches Err(HaltView::Ask(a)) ==> may_ask(
            server,
            ToolCallView::TagPushed { working_dir, tag, remote },
            a,
        ),
{
}

/// Walking back.
proof fn lemma_target_asks(
    server: ServerView,
    working_dir: Seq<char>,
    steps_back: u32,
    from: Seq<char>,
    replies: Seq<ReplyView>,
    at: nat,
)
    ensures
        reset_target_flow(
            working_dir,
            steps_back,
            from,
            replies,
            at,
        ) matches Err(HaltView::Ask(a)) ==> may_ask(
            server,
            ToolCallView::ResetTarget { working_dir, steps_back, from },
            a,
        ),
{
}

/// Every tool.
proof fn lemma_tool_asks(
    server: ServerView,
    call: ToolCallView,
    replies: Seq<ReplyView>,
    at: nat,
)
    ensures
        keeps_to_its_own(server, call, tool_flow(server, call, replies, at)),
{
    let f = tool_flow(server, call, replies, at);
    match call {
        ToolCallView::WorktreeAdd { name, branch, base_branch } => {
            assert(keeps_to_its_own(server, call, f)) by {
                reveal(tool_flow);
                lemma_add_asks(server, name, branch, base_branch, replies, at);
            }
        },
        ToolCallView::WorktreeRemove { name } => {
            assert(keeps_to_its_own(server, call, f)) by {
                reveal(tool_flow);
                lemma_remove_asks(server, name, replies, at);
            }
        },
        ToolCallView::SessionRelease { name } => {
            assert(keeps_to_its_own(server, call, f)) by {
                reveal(tool_flow);
                lemma_release_asks(server, name, replies, at);
            }
        },
        ToolCallView::WorktreeList => {
            assert(keeps_to_its_own(server, call, f)) by {
                reveal(tool_flow);
                lemma_list_asks(server, replies, at);
            }
        },
        ToolCallView::BranchDelete { branch, working_dir } => {
            assert(keeps_to_its_own(server, call, f)) by {
                reveal(tool_flow);
                lemma_delete_asks(server, branch, working_dir, replies, at);
            }
        },
        ToolCallView::Merge { branch, into_branch, working_dir } => {
            assert(keeps_to_its_own(server, call, f)) by {
                reveal(tool_flow);
                lemma_merge_asks(server, branch, into_branch, working_dir, replies, at);
            }
        },
        ToolCallView::Commit { working_dir, message, paths } => {
            assert(keeps_to_its_own(server, call, f)) by {
                reveal(tool_flow);
                lemma_commit_asks(server, working_dir, message, paths, replies, at);
            }
        },
        ToolCallView::Diff(request) => {
            assert(keeps_to_its_own(server, call, f)) by {
                reveal(tool_flow);
                lemma_diff_asks(server, request, replies, at);
            }
        },
        ToolCallView::SafeReset { working_dir, mode, target } => {
            assert(keeps_to_its_own(server, call, f)) by {
                reveal(tool_flow);
                lemma_reset_asks(server, working_dir, mode, target, replies, at);
            }
        },
        ToolCallView::WorktreeState { working_dir, branch } => {
            assert(keeps_to_its_own(server, call, f)) by {
                reveal(tool_flow);
                lemma_state_asks(server, working_dir, branch, replies, at);
            }
        },
        ToolCallView::BranchStatus { working_dir, branch, base } => {
            assert(keeps_to_its_own(server, call, f)) by {
                reveal(tool_flow);
                lemma_status_asks(server, working_dir, branch, base, replies, at);
            }
        },
        ToolCallView::SessionStart { repo_root } => {
            assert(keeps_to_its_own(server, call, f)) by {
                reveal(tool_flow);
                lemma_start_asks(server, repo_root, replies, at);
            }
        },
        ToolCallView::Status { working_dir } => {
            assert(keeps_to_its_own(server, call, f)) by {
                reveal(tool_flow);
                lemma_short_status_asks(server, working_dir, replies, at);
            }
        },
        ToolCallView::Log { working_dir, range, max_count } => {
            assert(keeps_to_its_own(server, call, f)) by {
                reveal(tool_flow);
                lemma_log_asks(server, working_dir, range, max_count, replies, at);
            }
        },
        ToolCallView::Fetch { working_dir, remote, refspec, prune } => {
            assert(keeps_to_its_own(server, call, f)) by {
                reveal(tool_flow);
                lemma_fetch_asks(server, working_dir, remote, refspec, prune, replies, at);
            }
        },
        ToolCallView::RemoteList { working_dir } => {
            assert(keeps_to_its_own(server, call, f)) by {
                reveal(tool_flow);
                lemma_remotes_asks(server, working_dir, replies, at);
            }
        },
        ToolCallView::UnpushedCommits { working_dir, branch, remote } => {
            assert(keeps_to_its_own(server, call, f)) by {
                reveal(tool_flow);
                lemma_unpushed_asks(server, working_dir, branch, remote, replies, at);
            }
        },
        ToolCallView::IsPushed { working_dir, commit, remote } => {
            assert(keeps_to_its_own(server, call, f)) by {
                reveal(tool_flow);
                lemma_pushed_asks(server, working_dir, commit, remote, replies, at);
            }
        },
        ToolCallView::TagPushed { working_dir, tag, remote } => {
            assert(keeps_to_its_own(server, call, f)) by {
                reveal(tool_flow);
                lemma_tag_asks(server, working_dir, tag, remote, replies, at);
            }
        },
        ToolCallView::ResetTarget { working_dir, steps_back, from } => {
            assert(keeps_to_its_own(server, call, f)) by {
                reveal(tool_flow);
                lemma_target_asks(server, working_dir, steps_back, from, replies, at);
            }
        },
    }
}

/// A call asks only for what its tool may ask for: it runs no git command but its
/// own, touches no records but those of its own repository, and only the tools that
/// make, remove and release worktrees write any.
pub proof fn law_calls_ask_only_for_theirs(
    server: ServerView,
    call: ToolCallView,
    replies: Seq<ReplyView>,
    at: nat,
)
    ensures
        call_flow(server, call, replies, at) matches Err(HaltView::Ask(a)) ==> may_ask(
            server,
            call,
            a,
        ),
{
    lemma_tool_asks(server, call, replies, at);
}

} // verus!
