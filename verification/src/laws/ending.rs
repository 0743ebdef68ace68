//! What holds of the length of a call.

use vstd::prelude::*;
use crate::domain::worktree::WorktreeView;
use crate::infra::git::branch::{among_flow, branch_delete_flow, known_dir_flow, merge_flow};
use crate::infra::git::inspect::{branch_status_flow, worktree_state_flow};
use crate::infra::git::worktree::{worktree_add_flow, worktree_list_flow, worktree_remove_flow};
use crate::infra::session_store::{
    load_flow, register_flow, store_of, unregister_flow, verify_owner_flow, SessionStoreView,
};
use crate::interface::mcp::call::{call_flow, tool_flow, ToolCallView};
use crate::interface::mcp::server::ServerView;
use crate::interface::mcp::tools::{
    branch_delete_tool, branch_guard, known_records, merge_tool, session_release_tool,
    worktree_add_tool, worktree_list_tool, worktree_remove_tool,
};
use crate::laws::driving::{end_of, settled};
use crate::protocol::{canonical, FlowView, ReplyView};

verus! {

/// Whether an operation that starts at `at` settles on the replies, where there are at
/// least `count` of them from there on, and reads no more than these.
pub open spec fn brief<T, E>(
    f: FlowView<T, E>,
    replies: Seq<ReplyView>,
    at: nat,
    count: nat,
) -> bool {
    replies.len() >= at + count ==> settled(f) && (end_of(f) is Some ==> end_of(f)->0 <= at + count)
}

/// Reading the records.
proof fn lemma_load_ends(
    store: SessionStoreView,
    replies: Seq<ReplyView>,
    at: nat,
)
    ensures
        brief(load_flow(store, replies, at), replies, at, 6),
{
}

/// Reading the records, where they can be read.
proof fn lemma_known_records_end(
    store: SessionStoreView,
    replies: Seq<ReplyView>,
    at: nat,
)
    ensures
        brief(known_records(store, replies, at), replies, at, 6),
{
    lemma_load_ends(store, replies, at);
}

/// Checking an owner.
proof fn lemma_verify_ends(
    store: SessionStoreView,
    name: Seq<char>,
    caller: Seq<char>,
    replies: Seq<ReplyView>,
    at: nat,
)
    ensures
        brief(verify_owner_flow(store, name, caller, replies, at), replies, at, 6),
{
    lemma_load_ends(store, replies, at);
}

/// Adding a record.
proof fn lemma_register_ends(
    store: SessionStoreView,
    name: Seq<char>,
    branch: Seq<char>,
    session_id: Seq<char>,
    replies: Seq<ReplyView>,
    at: nat,
)
    ensures
        brief(register_flow(store, name, branch, session_id, replies, at), replies, at, 9),
{
}

/// Dropping records.
proof fn lemma_unregister_ends(
    store: SessionStoreView,
    name: Seq<char>,
    replies: Seq<ReplyView>,
    at: nat,
)
    ensures
        brief(unregister_flow(store, name, replies, at), replies, at, 8),
{
}

/// Making a worktree in git.
proof fn lemma_git_add_ends(
    repo: Seq<char>,
    name: Seq<char>,
    branch: Seq<char>,
    base_branch: Option<Seq<char>>,
    replies: Seq<ReplyView>,
    at: nat,
)
    ensures
        brief(worktree_add_flow(repo, name, branch, base_branch, replies, at), replies, at, 8),
{
}

/// Removing a worktree from git.
proof fn lemma_git_remove_ends(
    repo: Seq<char>,
    name: Seq<char>,
    replies: Seq<ReplyView>,
    at: nat,
)
    ensures
        brief(worktree_remove_flow(repo, name, replies, at), replies, at, 2),
{
}

/// Checking who made a branch.
proof fn lemma_guard_ends(
    server: ServerView,
    root: Seq<char>,
    branch: Seq<char>,
    replies: Seq<ReplyView>,
    at: nat,
)
    ensures
        brief(branch_guard(server, root, branch, replies, at), replies, at, 6),
{
    lemma_known_records_end(store_of(root), replies, at);
}

/// Merging in git.
proof fn lemma_git_merge_ends(
    repo: Seq<char>,
    branch: Seq<char>,
    into_branch: Seq<char>,
    working_dir: Option<Seq<char>>,
    replies: Seq<ReplyView>,
    at: nat,
)
    ensures
        brief(merge_flow(repo, branch, into_branch, working_dir, replies, at), replies, at, 3),
{
}

/// Comparing branches.
proof fn lemma_branch_status_ends(
    dir: Seq<char>,
    branch: Seq<char>,
    base: Seq<char>,
    replies: Seq<ReplyView>,
    at: nat,
)
    ensures
        brief(branch_status_flow(dir, branch, base, replies, at), replies, at, 4),
{
}

/// Looking at the state of a worktree.
proof fn lemma_state_ends(
    dir: Seq<char>,
    branch: Option<Seq<char>>,
    replies: Seq<ReplyView>,
    at: nat,
)
    ensures
        brief(worktree_state_flow(dir, branch, replies, at), replies, at, 7),
{
}

/// Making a worktree.
proof fn lemma_add_ends(
    server: ServerView,
    name: Seq<char>,
    branch: Seq<char>,
    base_branch: Option<Seq<char>>,
    replies: Seq<ReplyView>,
    at: nat,
)
    ensures
        brief(worktree_add_tool(server, name, branch, base_branch, replies, at), replies, at, 17),
{
    if let Some(root) = server.repo_root {
        lemma_git_add_ends(root, name, branch, base_branch, replies, at);
        if let Ok((_, n)) = worktree_add_flow(root, name, branch, base_branch, replies, at) {
            lemma_register_ends(store_of(root), name, branch, server.session_id, replies, n);
        }
    }
}

/// Removing a worktree.
proof fn lemma_remove_ends(
    server: ServerView,
    name: Seq<char>,
    replies: Seq<ReplyView>,
    at: nat,
)
    ensures
        brief(worktree_remove_tool(server, name, replies, at), replies, at, 16),
{
    if let Some(root) = server.repo_root {
        let store = store_of(root);
        lemma_verify_ends(store, name, server.session_id, replies, at);
        if let Ok((_, n)) = verify_owner_flow(store, name, server.session_id, replies, at) {
            lemma_git_remove_ends(root, name, replies, n);
            if let Ok((_, n)) = worktree_remove_flow(root, name, replies, n) {
                lemma_unregister_ends(store, name, replies, n);
            }
        }
    }
}

/// Releasing a worktree.
proof fn lemma_release_ends(
    server: ServerView,
    name: Seq<char>,
    replies: Seq<ReplyView>,
    at: nat,
)
    ensures
        brief(session_release_tool(server, name, replies, at), replies, at, 8),
{
    if let Some(root) = server.repo_root {
        lemma_unregister_ends(store_of(root), name, replies, at);
    }
}

/// Listing the worktrees.
proof fn lemma_list_ends(
    server: ServerView,
    replies: Seq<ReplyView>,
    at: nat,
)
    ensures
        brief(worktree_list_tool(server, replies, at), replies, at, 7),
{
    if let Some(root) = server.repo_root {
        if let Ok((_, n)) = worktree_list_flow(root, replies, at) {
            lemma_known_records_end(store_of(root), replies, n);
        }
    }
}

/// Merging.
proof fn lemma_merge_ends(
    server: ServerView,
    branch: Seq<char>,
    into_branch: Seq<char>,
    working_dir: Option<Seq<char>>,
    replies: Seq<ReplyView>,
    at: nat,
)
    ensures
        brief(merge_tool(server, branch, into_branch, working_dir, replies, at), replies, at, 9),
{
    if let Some(root) = server.repo_root {
        lemma_guard_ends(server, root, branch, replies, at);
        if let Ok((_, n)) = branch_guard(server, root, branch, replies, at) {
            lemma_git_merge_ends(root, branch, into_branch, working_dir, replies, n);
        }
    }
}

/// Looking for a directory among the worktrees.
proof fn lemma_among_ends(
    worktrees: Seq<WorktreeView>,
    target: Seq<char>,
    replies: Seq<ReplyView>,
    at: nat,
)
    ensures
        brief(among_flow(worktrees, target, replies, at), replies, at, worktrees.len()),
    decreases worktrees.len(),
{
    if worktrees.len() > 0 {
        if let Ok((_, n)) = canonical(worktrees[0].path, replies, at) {
            lemma_among_ends(worktrees.drop_first(), target, replies, n);
        }
    }
}

/// Whether git lists no more than `most` worktrees, wherever among the replies it lists
/// them.
pub open spec fn lists_at_most(replies: Seq<ReplyView>, most: nat) -> bool {
    forall|repo: Seq<char>, n: nat|
        (#[trigger] worktree_list_flow(repo, replies, n)) matches Ok((worktrees, _))
            ==> worktrees.len() <= most
}

/// Checking that a directory belongs to the repository.
proof fn lemma_known_dir_ends(
    repo: Seq<char>,
    dir: Seq<char>,
    replies: Seq<ReplyView>,
    at: nat,
    most: nat,
)
    requires
        lists_at_most(replies, most),
    ensures
        brief(known_dir_flow(repo, dir, replies, at), replies, at, 3 + most),
{
    if let Ok((worktrees, n)) = worktree_list_flow(repo, replies, at + 2) {
        assert forall|target: Seq<char>|
            #![trigger among_flow(worktrees, target, replies, n)]
            brief(among_flow(worktrees, target, replies, n), replies, n, worktrees.len()) by {
            lemma_among_ends(worktrees, target, replies, n);
        }
    }
}

/// Deleting a branch in git.
proof fn lemma_git_delete_ends(
    repo: Seq<char>,
    branch: Seq<char>,
    working_dir: Option<Seq<char>>,
    replies: Seq<ReplyView>,
    at: nat,
    most: nat,
)
    requires
        lists_at_most(replies, most),
    ensures
        brief(branch_delete_flow(repo, branch, working_dir, replies, at), replies, at, 5 + most),
{
    if let Some(dir) = working_dir {
        lemma_known_dir_ends(repo, dir, replies, at + 1, most);
    }
}

/// Deleting a branch.
proof fn lemma_delete_ends(
    server: ServerView,
    branch: Seq<char>,
    working_dir: Option<Seq<char>>,
    replies: Seq<ReplyView>,
    at: nat,
    most: nat,
)
    requires
        lists_at_most(replies, most),
    ensures
        brief(branch_delete_tool(server, branch, working_dir, replies, at), replies, at, 11 + most),
{
    if let Some(root) = server.repo_root {
        lemma_guard_ends(server, root, branch, replies, at);
        if let Ok((_, n)) = branch_guard(server, root, branch, replies, at) {
            lemma_git_delete_ends(root, branch, working_dir, replies, n, most);
        }
    }
}

/// Every call comes to an end: after sixteen replies at most it has settled, and
/// deleting a branch in a working directory takes one more at most for each worktree
/// that git lists.
pub proof fn law_calls_end(
    server: ServerView,
    call: ToolCallView,
    replies: Seq<ReplyView>,
    at: nat,
    most: nat,
)
    requires
        lists_at_most(replies, most) || !(call is BranchDelete),
        replies.len() >= at + 17 + if call is BranchDelete {
            most
        } else {
            0
        },
    ensures
        settled(call_flow(server, call, replies, at)),
{
    let f = tool_flow(server, call, replies, at);
    match call {
        ToolCallView::WorktreeAdd { name, branch, base_branch } => {
            assert(settled(f)) by {
                reveal(tool_flow);
                lemma_add_ends(server, name, branch, base_branch, replies, at);
            }
        },
        ToolCallView::WorktreeRemove { name } => {
            assert(settled(f)) by {
                reveal(tool_flow);
                lemma_remove_ends(server, name, replies, at);
            }
        },
        ToolCallView::SessionRelease { name } => {
            assert(settled(f)) by {
                reveal(tool_flow);
                lemma_release_ends(server, name, replies, at);
            }
        },
        ToolCallView::WorktreeList => {
            assert(settled(f)) by {
                reveal(tool_flow);
                lemma_list_ends(server, replies, at);
            }
        },
        ToolCallView::BranchDelete { branch, working_dir } => {
            assert(settled(f)) by {
                reveal(tool_flow);
                lemma_delete_ends(server, branch, working_dir, replies, at, most);
            }
        },
        ToolCallView::Merge { branch, into_branch, working_dir } => {
            assert(settled(f)) by {
                reveal(tool_flow);
                lemma_merge_ends(server, branch, into_branch, working_dir, replies, at);
            }
        },
        ToolCallView::WorktreeState { working_dir, branch } => {
            assert(settled(f)) by {
                reveal(tool_flow);
                lemma_state_ends(working_dir, branch, replies, at);
            }
        },
        ToolCallView::BranchStatus { working_dir, branch, base } => {
            assert(settled(f)) by {
                reveal(tool_flow);
                lemma_branch_status_ends(working_dir, branch, base, replies, at);
            }
        },
        _ => {
            assert(settled(f)) by {
                reveal(tool_flow);
            }
        },
    }
}

} // verus!
