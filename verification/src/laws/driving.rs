//! What holds of the way a call is driven: it is made again and again with one
//! more reply until it settles.

use vstd::prelude::*;
use crate::domain::error::DomainErrorView;
use crate::domain::worktree::WorktreeView;
use crate::infra::git::branch::{among_flow, branch_delete_flow, known_dir_flow, merge_flow};
use crate::infra::git::inspect::{
    branch_status_flow, is_pushed_flow, reset_target_flow, tag_pushed_flow, unpushed_flow,
    worktree_state_flow,
};
use crate::infra::git::remote::{fetch_flow, remote_list_flow};
use crate::infra::git::worktree::{worktree_add_flow, worktree_list_flow, worktree_remove_flow};
use crate::infra::session_store::{
    load_flow, register_flow, store_of, unregister_flow, verify_owner_flow, SessionStoreView,
};
use crate::interface::mcp::call::{call_flow, tool_flow, ToolCallView};
use crate::interface::mcp::server::{session_start_flow, ServerView};
use crate::interface::mcp::tools::{
    branch_delete_tool, branch_guard, commit_tool, diff_tool, known_records, log_tool, merge_tool,
    safe_reset_tool, session_release_tool, status_tool, worktree_add_tool, worktree_list_tool,
    worktree_remove_tool, DiffRequestView,
};
use crate::protocol::{answers, canonical, FlowView, HaltView, ReplyView};

verus! {

/// Whether an operation has come to an end and asks for nothing more.
pub open spec fn settled<T, E>(f: FlowView<T, E>) -> bool {
    !(f matches Err(HaltView::Ask(_)))
}

/// Where an operation is past the replies that it read.
pub open spec fn end_of<T, E>(f: FlowView<T, E>) -> Option<nat> {
    match f {
        Ok((_, n)) => Some(n),
        Err(HaltView::Fail(_, n)) => Some(n),
        Err(_) => None,
    }
}

/// How an operation that starts at `at` behaves on `replies`, where it comes to
/// `before`, and on these and one more, where it comes to `after`: it reads
/// replies that are there, and all of them before it asks; once it has settled it
/// stays as it is; and an answer of the kind that it asks for is never mistaken for
/// another.
pub open spec fn orderly<T, E>(
    before: FlowView<T, E>,
    after: FlowView<T, E>,
    replies: Seq<ReplyView>,
    reply: ReplyView,
    at: nat,
) -> bool {
    &&& at >= replies.len() ==> before != Err::<(T, nat), _>(HaltView::<E>::Mismatch)
    &&& at <= replies.len() && end_of(before) is Some ==> at <= end_of(before)->0 <= replies.len()
    &&& settled(before) ==> after == before
    &&& at <= replies.len() && !settled(before) && end_of(after) is Some ==> end_of(after)->0
        == replies.len() + 1
    &&& at <= replies.len() && !settled(before) && answers(before->Err_0->Ask_0, reply) ==> after
        != Err::<(T, nat), _>(HaltView::<E>::Mismatch)
}

/// Looking for a directory among the worktrees is orderly.
proof fn lemma_among(
    worktrees: Seq<WorktreeView>,
    target: Seq<char>,
    replies: Seq<ReplyView>,
    reply: ReplyView,
    at: nat,
)
    ensures
        orderly(
            among_flow(worktrees, target, replies, at),
            among_flow(worktrees, target, replies.push(reply), at),
            replies,
            reply,
            at,
        ),
    decreases worktrees.len(),
{
    if worktrees.len() > 0 {
        if let Ok((_, n)) = canonical(worktrees[0].path, replies, at) {
            lemma_among(worktrees.drop_first(), target, replies, reply, n);
        } else if let Ok((_, n)) = canonical(worktrees[0].path, replies.push(reply), at) {
            lemma_among_start(worktrees.drop_first(), target, replies.push(reply), n);
        }
    }
}

/// Where all replies are read, looking for a directory does not take one of them
/// for another.
proof fn lemma_among_start(
    worktrees: Seq<WorktreeView>,
    target: Seq<char>,
    replies: Seq<ReplyView>,
    at: nat,
)
    requires
        at >= replies.len(),
    ensures
        among_flow(worktrees, target, replies, at) != Err::<(bool, nat), _>(
            HaltView::<DomainErrorView>::Mismatch,
        ),
        end_of(among_flow(worktrees, target, replies, at)) is Some ==> end_of(
            among_flow(worktrees, target, replies, at),
        )->0 == at,
{
    reveal_with_fuel(among_flow, 2);
}

/// Checking that a directory belongs to the repository is orderly.
pub proof fn lemma_known_dir(
    repo: Seq<char>,
    dir: Seq<char>,
    replies: Seq<ReplyView>,
    reply: ReplyView,
    at: nat,
)
    ensures
        orderly(
            known_dir_flow(repo, dir, replies, at),
            known_dir_flow(repo, dir, replies.push(reply), at),
            replies,
            reply,
            at,
        ),
{
    assert forall|worktrees: Seq<WorktreeView>, target: Seq<char>, n: nat|
        #![trigger among_flow(worktrees, target, replies, n)]
        orderly(
            among_flow(worktrees, target, replies, n),
            among_flow(worktrees, target, replies.push(reply), n),
            replies,
            reply,
            n,
        ) by {
        lemma_among(worktrees, target, replies, reply, n);
    }
    assert forall|worktrees: Seq<WorktreeView>, target: Seq<char>, n: nat|
        n > replies.len() implies {
        let f = #[trigger] among_flow(worktrees, target, replies.push(reply), n);
        &&& f != Err::<(bool, nat), _>(HaltView::<DomainErrorView>::Mismatch)
        &&& end_of(f) is Some ==> end_of(f)->0 == n
    } by {
        lemma_among_start(worktrees, target, replies.push(reply), n);
    }
}

/// Making a worktree in git is orderly.
proof fn lemma_git_add(
    repo: Seq<char>,
    name: Seq<char>,
    branch: Seq<char>,
    base_branch: Option<Seq<char>>,
    replies: Seq<ReplyView>,
    reply: ReplyView,
    at: nat,
)
    ensures
        orderly(
            worktree_add_flow(repo, name, branch, base_branch, replies, at),
            worktree_add_flow(repo, name, branch, base_branch, replies.push(reply), at),
            replies,
            reply,
            at,
        ),
{
}

/// Adding a record is orderly.
proof fn lemma_register(
    store: SessionStoreView,
    name: Seq<char>,
    branch: Seq<char>,
    session_id: Seq<char>,
    replies: Seq<ReplyView>,
    reply: ReplyView,
    at: nat,
)
    ensures
        orderly(
            register_flow(store, name, branch, session_id, replies, at),
            register_flow(store, name, branch, session_id, replies.push(reply), at),
            replies,
            reply,
            at,
        ),
{
}

/// Making a worktree is orderly.
proof fn lemma_worktree_add(
    server: ServerView,
    name: Seq<char>,
    branch: Seq<char>,
    base_branch: Option<Seq<char>>,
    replies: Seq<ReplyView>,
    reply: ReplyView,
    at: nat,
)
    ensures
        orderly(
            worktree_add_tool(server, name, branch, base_branch, replies, at),
            worktree_add_tool(server, name, branch, base_branch, replies.push(reply), at),
            replies,
            reply,
            at,
        ),
{
    if let Some(root) = server.repo_root {
        lemma_git_add(root, name, branch, base_branch, replies, reply, at);
        if let Ok((_, n)) = worktree_add_flow(root, name, branch, base_branch, replies, at) {
            lemma_register(store_of(root), name, branch, server.session_id, replies, reply, n);
        }
    }
}

/// Reading the records is orderly.
proof fn lemma_load(
    store: SessionStoreView,
    replies: Seq<ReplyView>,
    reply: ReplyView,
    at: nat,
)
    ensures
        orderly(
            load_flow(store, replies, at),
            load_flow(store, replies.push(reply), at),
            replies,
            reply,
            at,
        ),
{
}

/// Reading the records, where they can be read, is orderly.
proof fn lemma_known_records(
    store: SessionStoreView,
    replies: Seq<ReplyView>,
    reply: ReplyView,
    at: nat,
)
    ensures
        orderly(
            known_records(store, replies, at),
            known_records(store, replies.push(reply), at),
            replies,
            reply,
            at,
        ),
{
    lemma_load(store, replies, reply, at);
}

/// Checking an owner is orderly.
proof fn lemma_verify_owner(
    store: SessionStoreView,
    name: Seq<char>,
    caller: Seq<char>,
    replies: Seq<ReplyView>,
    reply: ReplyView,
    at: nat,
)
    ensures
        orderly(
            verify_owner_flow(store, name, caller, replies, at),
            verify_owner_flow(store, name, caller, replies.push(reply), at),
            replies,
            reply,
            at,
        ),
{
    lemma_load(store, replies, reply, at);
}

/// Removing a worktree from git is orderly.
proof fn lemma_remove(
    repo: Seq<char>,
    name: Seq<char>,
    replies: Seq<ReplyView>,
    reply: ReplyView,
    at: nat,
)
    ensures
        orderly(
            worktree_remove_flow(repo, name, replies, at),
            worktree_remove_flow(repo, name, replies.push(reply), at),
            replies,
            reply,
            at,
        ),
{
}

/// Dropping records is orderly.
proof fn lemma_unregister(
    store: SessionStoreView,
    name: Seq<char>,
    replies: Seq<ReplyView>,
    reply: ReplyView,
    at: nat,
)
    ensures
        orderly(
            unregister_flow(store, name, replies, at),
            unregister_flow(store, name, replies.push(reply), at),
            replies,
            reply,
            at,
        ),
{
}

/// Releasing a worktree is orderly.
proof fn lemma_session_release(
    server: ServerView,
    name: Seq<char>,
    replies: Seq<ReplyView>,
    reply: ReplyView,
    at: nat,
)
    ensures
        orderly(
            session_release_tool(server, name, replies, at),
            session_release_tool(server, name, replies.push(reply), at),
            replies,
            reply,
            at,
        ),
{
    if let Some(root) = server.repo_root {
        lemma_unregister(store_of(root), name, replies, reply, at);
    }
}

/// Listing the worktrees is orderly.
proof fn lemma_worktree_list(
    server: ServerView,
    replies: Seq<ReplyView>,
    reply: ReplyView,
    at: nat,
)
    ensures
        orderly(
            worktree_list_tool(server, replies, at),
            worktree_list_tool(server, replies.push(reply), at),
            replies,
            reply,
            at,
        ),
{
    if let Some(root) = server.repo_root {
        if let Ok((_, n)) = worktree_list_flow(root, replies, at) {
            lemma_known_records(store_of(root), replies, reply, n);
        }
    }
}

/// Checking who made a branch is orderly.
pub proof fn lemma_branch_guard(
    server: ServerView,
    root: Seq<char>,
    branch: Seq<char>,
    replies: Seq<ReplyView>,
    reply: ReplyView,
    at: nat,
)
    ensures
        orderly(
            branch_guard(server, root, branch, replies, at),
            branch_guard(server, root, branch, replies.push(reply), at),
            replies,
            reply,
            at,
        ),
{
    lemma_known_records(store_of(root), replies, reply, at);
}

/// Merging in git is orderly.
proof fn lemma_git_merge(
    repo: Seq<char>,
    branch: Seq<char>,
    into_branch: Seq<char>,
    working_dir: Option<Seq<char>>,
    replies: Seq<ReplyView>,
    reply: ReplyView,
    at: nat,
)
    ensures
        orderly(
            merge_flow(repo, branch, into_branch, working_dir, replies, at),
            merge_flow(repo, branch, into_branch, working_dir, replies.push(reply), at),
            replies,
            reply,
            at,
        ),
{
}

/// Merging is orderly.
proof fn lemma_merge(
    server: ServerView,
    branch: Seq<char>,
    into_branch: Seq<char>,
    working_dir: Option<Seq<char>>,
    replies: Seq<ReplyView>,
    reply: ReplyView,
    at: nat,
)
    ensures
        orderly(
            merge_tool(server, branch, into_branch, working_dir, replies, at),
            merge_tool(server, branch, into_branch, working_dir, replies.push(reply), at),
            replies,
            reply,
            at,
        ),
{
    if let Some(root) = server.repo_root {
        lemma_branch_guard(server, root, branch, replies, reply, at);
        if let Ok((_, n)) = branch_guard(server, root, branch, replies, at) {
            lemma_git_merge(root, branch, into_branch, working_dir, replies, reply, n);
        }
    }
}

/// Looking at the state of a worktree is orderly.
proof fn lemma_worktree_state(
    working_dir: Seq<char>,
    branch: Option<Seq<char>>,
    replies: Seq<ReplyView>,
    reply: ReplyView,
    at: nat,
)
    ensures
        orderly(
            worktree_state_flow(working_dir, branch, replies, at),
            worktree_state_flow(working_dir, branch, replies.push(reply), at),
            replies,
            reply,
            at,
        ),
{
}

/// Removing a worktree is orderly.
proof fn lemma_worktree_remove(
    server: ServerView,
    name: Seq<char>,
    replies: Seq<ReplyView>,
    reply: ReplyView,
    at: nat,
)
    ensures
        orderly(
            worktree_remove_tool(server, name, replies, at),
            worktree_remove_tool(server, name, replies.push(reply), at),
            replies,
            reply,
            at,
        ),
{
    if let Some(root) = server.repo_root {
        let store = store_of(root);
        lemma_verify_owner(store, name, server.session_id, replies, reply, at);
        if let Ok((_, n)) = verify_owner_flow(store, name, server.session_id, replies, at) {
            lemma_remove(root, name, replies, reply, n);
            if let Ok((_, n)) = worktree_remove_flow(root, name, replies, n) {
                lemma_unregister(store, name, replies, reply, n);
            }
        }
    }
}

/// Deleting a branch in git is orderly.
proof fn lemma_git_delete(
    repo: Seq<char>,
    branch: Seq<char>,
    working_dir: Option<Seq<char>>,
    replies: Seq<ReplyView>,
    reply: ReplyView,
    at: nat,
)
    ensures
        orderly(
            branch_delete_flow(repo, branch, working_dir, replies, at),
            branch_delete_flow(repo, branch, working_dir, replies.push(reply), at),
            replies,
            reply,
            at,
        ),
{
    if let Some(dir) = working_dir {
        lemma_known_dir(repo, dir, replies, reply, at + 1);
    }
}

/// Deleting a branch is orderly.
proof fn lemma_branch_delete(
    server: ServerView,
    branch: Seq<char>,
    working_dir: Option<Seq<char>>,
    replies: Seq<ReplyView>,
    reply: ReplyView,
    at: nat,
)
    ensures
        orderly(
            branch_delete_tool(server, branch, working_dir, replies, at),
            branch_delete_tool(server, branch, working_dir, replies.push(reply), at),
            replies,
            reply,
            at,
        ),
{
    if let Some(root) = server.repo_root {
        lemma_branch_guard(server, root, branch, replies, reply, at);
        if let Ok((_, n)) = branch_guard(server, root, branch, replies, at) {
            lemma_git_delete(root, branch, working_dir, replies, reply, n);
        }
    }
}

/// Starting a session is orderly.
proof fn lemma_session_start(
    server: ServerView,
    root: Seq<char>,
    replies: Seq<ReplyView>,
    reply: ReplyView,
    at: nat,
)
    ensures
        orderly(
            session_start_flow(server, root, replies, at),
            session_start_flow(server, root, replies.push(reply), at),
            replies,
            reply,
            at,
        ),
{
}

/// Committing is orderly.
proof fn lemma_commit(
    working_dir: Seq<char>,
    message: Seq<char>,
    paths: Option<Seq<Seq<char>>>,
    replies: Seq<ReplyView>,
    reply: ReplyView,
    at: nat,
)
    ensures
        orderly(
            commit_tool(working_dir, message, paths, replies, at),
            commit_tool(working_dir, message, paths, replies.push(reply), at),
            replies,
            reply,
            at,
        ),
{
}

/// Showing the status is orderly.
proof fn lemma_status(
    working_dir: Seq<char>,
    replies: Seq<ReplyView>,
    reply: ReplyView,
    at: nat,
)
    ensures
        orderly(
            status_tool(working_dir, replies, at),
            status_tool(working_dir, replies.push(reply), at),
            replies,
            reply,
            at,
        ),
{
}

/// Comparing is orderly.
proof fn lemma_diff(
    request: DiffRequestView,
    replies: Seq<ReplyView>,
    reply: ReplyView,
    at: nat,
)
    ensures
        orderly(
            diff_tool(request, replies, at),
            diff_tool(request, replies.push(reply), at),
            replies,
            reply,
            at,
        ),
{
}

/// Showing the last commits is orderly.
proof fn lemma_log(
    working_dir: Seq<char>,
    range: Option<Seq<char>>,
    max_count: Option<u32>,
    replies: Seq<ReplyView>,
    reply: ReplyView,
    at: nat,
)
    ensures
        orderly(
            log_tool(working_dir, range, max_count, replies, at),
            log_tool(working_dir, range, max_count, replies.push(reply), at),
            replies,
            reply,
            at,
        ),
{
}

/// Resetting is orderly.
proof fn lemma_safe_reset(
    working_dir: Seq<char>,
    mode: Option<Seq<char>>,
    target: Option<Seq<char>>,
    replies: Seq<ReplyView>,
    reply: ReplyView,
    at: nat,
)
    ensures
        orderly(
            safe_reset_tool(working_dir, mode, target, replies, at),
            safe_reset_tool(working_dir, mode, target, replies.push(reply), at),
            replies,
            reply,
            at,
        ),
{
}

/// Fetching is orderly.
proof fn lemma_fetch(
    repo: Seq<char>,
    remote: Option<Seq<char>>,
    refspec: Option<Seq<char>>,
    prune: bool,
    replies: Seq<ReplyView>,
    reply: ReplyView,
    at: nat,
)
    ensures
        orderly(
            fetch_flow(repo, remote, refspec, prune, replies, at),
            fetch_flow(repo, remote, refspec, prune, replies.push(reply), at),
            replies,
            reply,
            at,
        ),
{
}

/// Listing the remotes is orderly.
proof fn lemma_remote_list(
    repo: Seq<char>,
    replies: Seq<ReplyView>,
    reply: ReplyView,
    at: nat,
)
    ensures
        orderly(
            remote_list_flow(repo, replies, at),
            remote_list_flow(repo, replies.push(reply), at),
            replies,
            reply,
            at,
        ),
{
}

/// Comparing branches is orderly.
proof fn lemma_branch_status(
    working_dir: Seq<char>,
    branch: Seq<char>,
    base: Seq<char>,
    replies: Seq<ReplyView>,
    reply: ReplyView,
    at: nat,
)
    ensures
        orderly(
            branch_status_flow(working_dir, branch, base, replies, at),
            branch_status_flow(working_dir, branch, base, replies.push(reply), at),
            replies,
            reply,
            at,
        ),
{
}

/// Listing what is not pushed is orderly.
proof fn lemma_unpushed(
    working_dir: Seq<char>,
    branch: Seq<char>,
    remote: Seq<char>,
    replies: Seq<ReplyView>,
    reply: ReplyView,
    at: nat,
)
    ensures
        orderly(
            unpushed_flow(working_dir, branch, remote, replies, at),
            unpushed_flow(working_dir, branch, remote, replies.push(reply), at),
            replies,
            reply,
            at,
        ),
{
}

/// Asking whether a commit is pushed is orderly.
proof fn lemma_is_pushed(
    working_dir: Seq<char>,
    commit: Seq<char>,
    remote: Seq<char>,
    replies: Seq<ReplyView>,
    reply: ReplyView,
    at: nat,
)
    ensures
        orderly(
            is_pushed_flow(working_dir, commit, remote, replies, at),
            is_pushed_flow(working_dir, commit, remote, replies.push(reply), at),
            replies,
            reply,
            at,
        ),
{
}

/// Asking whether a tag is pushed is orderly.
proof fn lemma_tag_pushed(
    working_dir: Seq<char>,
    tag: Seq<char>,
    remote: Seq<char>,
    replies: Seq<ReplyView>,
    reply: ReplyView,
    at: nat,
)
    ensures
        orderly(
            tag_pushed_flow(working_dir, tag, remote, replies, at),
            tag_pushed_flow(working_dir, tag, remote, replies.push(reply), at),
            replies,
            reply,
            at,
        ),
{
}

/// Walking back is orderly.
proof fn lemma_reset_target(
    working_dir: Seq<char>,
    steps_back: u32,
    from: Seq<char>,
    replies: Seq<ReplyView>,
    reply: ReplyView,
    at: nat,
)
    ensures
        orderly(
            reset_target_flow(working_dir, steps_back, from, replies, at),
            reset_target_flow(working_dir, steps_back, from, replies.push(reply), at),
            replies,
            reply,
            at,
        ),
{
}

/// Every tool is orderly.
proof fn lemma_tool(
    server: ServerView,
    call: ToolCallView,
    replies: Seq<ReplyView>,
    reply: ReplyView,
    at: nat,
)
    ensures
        orderly(
            tool_flow(server, call, replies, at),
            tool_flow(server, call, replies.push(reply), at),
            replies,
            reply,
            at,
        ),
{
    let before = tool_flow(server, call, replies, at);
    let after = tool_flow(server, call, replies.push(reply), at);
    match call {
        ToolCallView::SessionStart { repo_root } => {
            assert(orderly(before, after, replies, reply, at)) by {
                reveal(tool_flow);
                lemma_session_start(server, repo_root, replies, reply, at);
            }
        },
        ToolCallView::WorktreeAdd { name, branch, base_branch } => {
            assert(orderly(before, after, replies, reply, at)) by {
                reveal(tool_flow);
                lemma_worktree_add(server, name, branch, base_branch, replies, reply, at);
            }
        },
        ToolCallView::WorktreeRemove { name } => {
            assert(orderly(before, after, replies, reply, at)) by {
                reveal(tool_flow);
                lemma_worktree_remove(server, name, replies, reply, at);
            }
        },
        ToolCallView::SessionRelease { name } => {
            assert(orderly(before, after, replies, reply, at)) by {
                reveal(tool_flow);
                lemma_session_release(server, name, replies, reply, at);
            }
        },
        ToolCallView::WorktreeList => {
            assert(orderly(before, after, replies, reply, at)) by {
                reveal(tool_flow);
                lemma_worktree_list(server, replies, reply, at);
            }
        },
        ToolCallView::BranchDelete { branch, working_dir } => {
            assert(orderly(before, after, replies, reply, at)) by {
                reveal(tool_flow);
                lemma_branch_delete(server, branch, working_dir, replies, reply, at);
            }
        },
        ToolCallView::Commit { working_dir, message, paths } => {
            assert(orderly(before, after, replies, reply, at)) by {
                reveal(tool_flow);
                lemma_commit(working_dir, message, paths, replies, reply, at);
            }
        },
        ToolCallView::Merge { branch, into_branch, working_dir } => {
            assert(orderly(before, after, replies, reply, at)) by {
                reveal(tool_flow);
                lemma_merge(server, branch, into_branch, working_dir, replies, reply, at);
            }
        },
        ToolCallView::Status { working_dir } => {
            assert(orderly(before, after, replies, reply, at)) by {
                reveal(tool_flow);
                lemma_status(working_dir, replies, reply, at);
            }
        },
        ToolCallView::Diff(request) => {
            assert(orderly(before, after, replies, reply, at)) by {
                reveal(tool_flow);
                lemma_diff(request, replies, reply, at);
            }
        },
        ToolCallView::Log { working_dir, range, max_count } => {
            assert(orderly(before, after, replies, reply, at)) by {
                reveal(tool_flow);
                lemma_log(working_dir, range, max_count, replies, reply, at);
            }
        },
        ToolCallView::SafeReset { working_dir, mode, target } => {
            assert(orderly(before, after, replies, reply, at)) by {
                reveal(tool_flow);
                lemma_safe_reset(working_dir, mode, target, replies, reply, at);
            }
        },
        ToolCallView::Fetch { working_dir, remote, refspec, prune } => {
            assert(orderly(before, after, replies, reply, at)) by {
                reveal(tool_flow);
                lemma_fetch(working_dir, remote, refspec, prune, replies, reply, at);
            }
        },
        ToolCallView::RemoteList { working_dir } => {
            assert(orderly(before, after, replies, reply, at)) by {
                reveal(tool_flow);
                lemma_remote_list(working_dir, replies, reply, at);
            }
        },
        ToolCallView::BranchStatus { working_dir, branch, base } => {
            assert(orderly(before, after, replies, reply, at)) by {
                reveal(tool_flow);
                lemma_branch_status(working_dir, branch, base, replies, reply, at);
            }
        },
        ToolCallView::UnpushedCommits { working_dir, branch, remote } => {
            assert(orderly(before, after, replies, reply, at)) by {
                reveal(tool_flow);
                lemma_unpushed(working_dir, branch, remote, replies, reply, at);
            }
        },
        ToolCallView::IsPushed { working_dir, commit, remote } => {
            assert(orderly(before, after, replies, reply, at)) by {
                reveal(tool_flow);
                lemma_is_pushed(working_dir, commit, remote, replies, reply, at);
            }
        },
        ToolCallView::TagPushed { working_dir, tag, remote } => {
            assert(orderly(before, after, replies, reply, at)) by {
                reveal(tool_flow);
                lemma_tag_pushed(working_dir, tag, remote, replies, reply, at);
            }
        },
        ToolCallView::ResetTarget { working_dir, steps_back, from } => {
            assert(orderly(before, after, replies, reply, at)) by {
                reveal(tool_flow);
                lemma_reset_target(working_dir, steps_back, from, replies, reply, at);
            }
        },
        ToolCallView::WorktreeState { working_dir, branch } => {
            assert(orderly(before, after, replies, reply, at)) by {
                reveal(tool_flow);
                lemma_worktree_state(working_dir, branch, replies, reply, at);
            }
        },
    }
}

/// Every call is orderly.
proof fn lemma_call(
    server: ServerView,
    call: ToolCallView,
    replies: Seq<ReplyView>,
    reply: ReplyView,
    at: nat,
)
    ensures
        orderly(
            call_flow(server, call, replies, at),
            call_flow(server, call, replies.push(reply), at),
            replies,
            reply,
            at,
        ),
{
    lemma_tool(server, call, replies, reply, at);
}

/// A call that has settled is not changed by replies that come after: what it comes
/// to depends on the replies that it asked for and on no others.
pub proof fn law_settled_calls_stay(
    server: ServerView,
    call: ToolCallView,
    replies: Seq<ReplyView>,
    more: Seq<ReplyView>,
    at: nat,
)
    requires
        settled(call_flow(server, call, replies, at)),
    ensures
        call_flow(server, call, replies + more, at) == call_flow(server, call, replies, at),
    decreases more.len(),
{
    if more.len() == 0 {
        assert(replies + more =~= replies);
    } else {
        let earlier = replies + more.drop_last();
        law_settled_calls_stay(server, call, replies, more.drop_last(), at);
        lemma_call(server, call, earlier, more.last(), at);
        assert(earlier.push(more.last()) =~= replies + more);
    }
}

/// A call that has settled has read replies that were there, from the one that it
/// starts at, and stands behind the last of them.
pub proof fn law_settled_calls_read_what_is_there(
    server: ServerView,
    call: ToolCallView,
    replies: Seq<ReplyView>,
    at: nat,
)
    requires
        at <= replies.len(),
    ensures
        match call_flow(server, call, replies, at) {
            Ok((_, n)) => at <= n <= replies.len(),
            Err(HaltView::Fail(_, n)) => at <= n <= replies.len(),
            Err(_) => true,
        },
{
    lemma_call(server, call, replies, ReplyView::Completed, at);
}

/// Whether each reply from `at` on is of the kind that the call asked for before it.
pub open spec fn rightly_answered(
    server: ServerView,
    call: ToolCallView,
    replies: Seq<ReplyView>,
    at: nat,
) -> bool {
    forall|k: int|
        at <= k < replies.len() ==> match #[trigger] call_flow(
            server,
            call,
            replies.take(k),
            at,
        ) {
            Err(HaltView::Ask(a)) => answers(a, replies[k]),
            _ => true,
        }
}

/// A call whose questions are answered by replies of the right kind is never at
/// odds with them: it asks on, succeeds, or fails with what the client is told.
pub proof fn law_right_answers_are_understood(
    server: ServerView,
    call: ToolCallView,
    replies: Seq<ReplyView>,
    at: nat,
)
    requires
        at <= replies.len(),
        rightly_answered(server, call, replies, at),
    ensures
        !(call_flow(server, call, replies, at) matches Err(HaltView::Mismatch)),
    decreases replies.len(),
{
    lemma_call(server, call, replies, ReplyView::Completed, at);
    if at < replies.len() {
        let earlier = replies.drop_last();
        assert(earlier =~= replies.take(replies.len() - 1));
        assert(earlier.push(replies.last()) =~= replies);
        assert forall|k: int| at <= k < earlier.len() implies match #[trigger] call_flow(
            server,
            call,
            earlier.take(k),
            at,
        ) {
            Err(HaltView::Ask(a)) => answers(a, earlier[k]),
            _ => true,
        } by {
            assert(earlier.take(k) =~= replies.take(k));
        }
        law_right_answers_are_understood(server, call, earlier, at);
        lemma_call(server, call, earlier, replies.last(), at);
    }
}

} // verus!
