//! What stands between a call and the commands that destroy something.

use vstd::prelude::*;
use crate::domain::error::DomainErrorView;
use crate::infra::git::branch::{known_dir_flow, merge_args, run_dir_of};
use crate::infra::git::path::{home_flow, is_absolute, lemma_worktree_path_is_absolute};
use crate::infra::git::working::{add_args, first_dashed, is_safe_mode, unsafe_mode};
use crate::infra::git::worktree::{
    clean_base_flow, waives, worktree_add_flow, worktree_add_impl_flow,
};
use crate::infra::session_store::{load_flow, owner_in, ownership, store_of};
use crate::interface::mcp::call::{
    as_text, call_flow, tool_flow, tool_of, ToolCallView, ToolOutputView,
};
use crate::interface::mcp::mode::{holds_back, told, ToolErrorView};
use crate::interface::mcp::server::{not_started, ServerView};
use crate::interface::mcp::tools::{
    branch_delete_tool, branch_guard, branch_ownership, commit_tool, known_records, merge_tool,
    record_on, safe_reset_tool, worktree_add_tool, worktree_remove_tool,
};
use crate::laws::commands::{
    law_calls_ask_only_for_theirs, lemma_known_dir_asks, lemma_load_asks, lemma_register_asks,
    may_be_made_at, on_records,
};
use crate::laws::driving::{lemma_branch_guard, lemma_known_dir};
use crate::protocol::{git, git_text, succeeded, ActionView, FlowView, HaltView, ReplyView};
use crate::text::begins_with;

verus! {

/// The failure of a call, as its outcome.
pub open spec fn failed(e: ToolErrorView, n: nat) -> FlowView<ToolOutputView, ToolErrorView> {
    Err(HaltView::Fail(e, n))
}

/// The question of a call, as its outcome.
pub open spec fn asking(a: ActionView) -> FlowView<ToolOutputView, ToolErrorView> {
    Err(HaltView::Ask(a))
}

// ---------------------------------------------------------------------------
// Sessions
// ---------------------------------------------------------------------------

/// The tools that work on the session records need a session: before it has started
/// they fail, say so, and ask for nothing.
pub proof fn law_sessions_must_start(
    server: ServerView,
    call: ToolCallView,
    replies: Seq<ReplyView>,
    at: nat,
)
    requires
        on_records(call),
        server.repo_root is None,
        !holds_back(server.mode, tool_of(call)),
    ensures
        call_flow(server, call, replies, at) == failed(not_started(), at),
{
    reveal(tool_flow);
}

/// The other tools do the same in every connection of the same mode, whether its
/// session has started or not.
pub proof fn law_other_tools_need_no_session(
    server: ServerView,
    other: ServerView,
    call: ToolCallView,
    replies: Seq<ReplyView>,
    at: nat,
)
    requires
        !on_records(call),
        !(call is SessionStart),
        server.mode == other.mode,
    ensures
        call_flow(server, call, replies, at) == call_flow(other, call, replies, at),
{
    reveal(tool_flow);
}

/// A worktree is removed for its owner, or where it has none: git is run only when
/// the records that were read say so, and whoever asks for the worktree of another
/// session is told whose it is.
pub proof fn law_only_the_owner_removes(
    server: ServerView,
    root: Seq<char>,
    name: Seq<char>,
    replies: Seq<ReplyView>,
    at: nat,
)
    requires
        server.repo_root == Some(root),
        !holds_back(server.mode, "worktree_remove"@),
    ensures
        call_flow(server, ToolCallView::WorktreeRemove { name }, replies, at) matches Err(
            HaltView::Ask(ActionView::Git { .. }),
        ) ==> load_flow(store_of(root), replies, at) matches Ok((sessions, _)) && ownership(
            sessions,
            name,
            server.session_id,
        ) is Ok,
        load_flow(store_of(root), replies, at) matches Ok((sessions, n)) ==> (owner_in(
            sessions,
            name,
        ) matches Some(owner) ==> owner != server.session_id ==> call_flow(
            server,
            ToolCallView::WorktreeRemove { name },
            replies,
            at,
        ) == failed(
            told(
                DomainErrorView::SessionMismatch {
                    worktree: name,
                    owner,
                    caller: server.session_id,
                },
            ),
            n,
        )),
{
    let f = worktree_remove_tool(server, name, replies, at);
    let loaded = load_flow(store_of(root), replies, at);
    assert(call_flow(server, ToolCallView::WorktreeRemove { name }, replies, at)
        == as_text(f)) by {
        reveal(tool_flow);
    }
    if loaded is Err {
        lemma_load_asks(store_of(root), replies, at);
    }
}

/// What the calls that act on a branch share.
pub open spec fn acts_on(call: ToolCallView, branch: Seq<char>) -> bool {
    match call {
        ToolCallView::BranchDelete { branch: b, .. } => b == branch,
        ToolCallView::Merge { branch: b, .. } => b == branch,
        _ => false,
    }
}

/// A branch is deleted and merged for the session that made it, or where none is
/// recorded for it: git is run only when the records say so, and whoever asks for
/// the branch of another session is told whose it is. Records that cannot be read
/// stand for no records.
pub proof fn law_only_the_maker_deletes_and_merges(
    server: ServerView,
    root: Seq<char>,
    call: ToolCallView,
    branch: Seq<char>,
    replies: Seq<ReplyView>,
    at: nat,
)
    requires
        server.repo_root == Some(root),
        acts_on(call, branch),
        !holds_back(server.mode, tool_of(call)),
    ensures
        call_flow(server, call, replies, at) matches Err(HaltView::Ask(ActionView::Git { .. }))
            ==> known_records(store_of(root), replies, at) matches Ok((sessions, _))
            && branch_ownership(sessions, branch, server.session_id) is Ok,
        load_flow(store_of(root), replies, at) matches Ok((sessions, n)) ==> (record_on(
            sessions,
            branch,
        ) matches Some(record) ==> record.session_id != server.session_id ==> call_flow(
            server,
            call,
            replies,
            at,
        ) == failed(
            told(
                DomainErrorView::SessionMismatch {
                    worktree: record.worktree_name,
                    owner: record.session_id,
                    caller: server.session_id,
                },
            ),
            n,
        )),
{
    lemma_load_asks(store_of(root), replies, at);
    match call {
        ToolCallView::BranchDelete { branch, working_dir } => {
            let f = branch_delete_tool(server, branch, working_dir, replies, at);
            assert(call_flow(server, call, replies, at) == as_text(f)) by {
                reveal(tool_flow);
            }
        },
        ToolCallView::Merge { branch, into_branch, working_dir } => {
            let f = merge_tool(server, branch, into_branch, working_dir, replies, at);
            assert(call_flow(server, call, replies, at) == as_text(f)) by {
                reveal(tool_flow);
            }
        },
        _ => {},
    }
}

// ---------------------------------------------------------------------------
// Branches
// ---------------------------------------------------------------------------

/// A merge is run only where the branch to merge into is the one that is checked
/// out: git has just said so.
pub proof fn law_merges_only_into_the_current_branch(
    server: ServerView,
    branch: Seq<char>,
    into_branch: Seq<char>,
    working_dir: Option<Seq<char>>,
    replies: Seq<ReplyView>,
    at: nat,
    dir: Seq<char>,
)
    requires
        at <= replies.len(),
        call_flow(
            server,
            ToolCallView::Merge { branch, into_branch, working_dir },
            replies,
            at,
        ) == asking(git(dir, merge_args(branch))),
    ensures
        server.repo_root is Some,
        dir == run_dir_of(server.repo_root->0, working_dir),
        replies.len() > at,
        git_text(dir, seq!["branch"@, "--show-current"@], replies, (replies.len() - 1) as nat)
            == Ok::<_, HaltView<DomainErrorView>>((into_branch, replies.len())),
{
    let f = merge_tool(server, branch, into_branch, working_dir, replies, at);
    let call = ToolCallView::Merge { branch, into_branch, working_dir };
    assert(f is Err && f->Err_0 == HaltView::<ToolErrorView>::Ask(git(dir, merge_args(branch))))
        by {
        reveal(tool_flow);
    }
    let root = server.repo_root->0;
    lemma_load_asks(store_of(root), replies, at);
    assert(merge_args(branch).len() == 5);
    assert(seq!["branch"@, "--show-current"@].len() == 2);
}

/// A branch is deleted in the repository, or in a working directory that has just
/// been found to be the repository or one of its worktrees.
pub proof fn law_deletes_only_in_known_directories(
    server: ServerView,
    branch: Seq<char>,
    working_dir: Option<Seq<char>>,
    replies: Seq<ReplyView>,
    at: nat,
    dir: Seq<char>,
)
    requires
        at <= replies.len(),
        call_flow(server, ToolCallView::BranchDelete { branch, working_dir }, replies, at)
            == asking(git(dir, seq!["branch"@, "-d"@, branch])),
    ensures
        server.repo_root is Some,
        match working_dir {
            None => dir == server.repo_root->0,
            Some(wd) => dir == wd && exists|k: nat|
                #[trigger] known_dir_flow(server.repo_root->0, wd, replies, k) == Ok::<
                    _,
                    HaltView<DomainErrorView>,
                >(((), replies.len())),
        },
{
    let f = branch_delete_tool(server, branch, working_dir, replies, at);
    assert(f is Err && f->Err_0 == HaltView::<ToolErrorView>::Ask(
        git(dir, seq!["branch"@, "-d"@, branch]),
    )) by {
        reveal(tool_flow);
    }
    let root = server.repo_root->0;
    lemma_load_asks(store_of(root), replies, at);
    lemma_branch_guard(server, root, branch, replies, ReplyView::Completed, at);
    if let Ok((_, n)) = branch_guard(server, root, branch, replies, at) {
        if let Some(wd) = working_dir {
            lemma_known_dir_asks(root, wd, replies, n + 1);
            lemma_known_dir(root, wd, replies, ReplyView::Completed, n + 1);
            lemma_subcommands_differ();
        }
    }
}

/// `git branch -d` is another command than `git worktree list`.
proof fn lemma_subcommands_differ()
    ensures
        "branch"@ != "worktree"@,
{
    reveal_strlit("branch");
    reveal_strlit("worktree");
    assert("branch"@.len() == 6);
}

// ---------------------------------------------------------------------------
// New worktrees
// ---------------------------------------------------------------------------

/// The commands of `worktree_add` that make something.
pub open spec fn makes(
    root: Seq<char>,
    name: Seq<char>,
    branch: Seq<char>,
    base_branch: Option<Seq<char>>,
    args: Seq<Seq<char>>,
) -> bool {
    ||| base_branch is None && args == seq!["branch"@, branch]
    ||| base_branch is Some && args == seq!["branch"@, branch, base_branch->0]
    ||| args.len() == 4 && may_be_made_at(root, name, args[2]) && args == seq![
        "worktree"@,
        "add"@,
        args[2],
        branch,
    ]
}

/// Nothing is made before it is known that neither the worktree nor the branch is
/// there, and that the base branch, where it is checked out anywhere, is clean there
/// unless that check is waived. Where one of the two is there, the call fails.
pub proof fn law_makes_worktrees_only_after_the_checks(
    server: ServerView,
    root: Seq<char>,
    name: Seq<char>,
    branch: Seq<char>,
    base_branch: Option<Seq<char>>,
    replies: Seq<ReplyView>,
    at: nat,
    dir: Seq<char>,
    args: Seq<Seq<char>>,
)
    requires
        at <= replies.len(),
        server.repo_root == Some(root),
        call_flow(
            server,
            ToolCallView::WorktreeAdd { name, branch, base_branch },
            replies,
            at,
        ) == asking(git(dir, args)),
        makes(root, name, branch, base_branch, args),
    ensures
        dir == root,
        home_flow(root, replies, at + 1) matches Ok((_, n)) && {
            &&& replies.len() > n + 1
            &&& replies[n as int] == ReplyView::Flag(false)
            &&& replies[n as int + 1] matches ReplyView::Output(o) && !succeeded(o)
            &&& base_branch matches Some(base) ==> (replies[at as int] matches
                ReplyView::Variable(v) && waives(v)) || clean_base_flow(root, base, replies, n + 2)
                is Ok
        },
{
    let f = worktree_add_tool(server, name, branch, base_branch, replies, at);
    assert(f is Err && f->Err_0 == HaltView::<ToolErrorView>::Ask(git(dir, args))) by {
        reveal(tool_flow);
    }
    if let Ok((_, n)) = worktree_add_flow(root, name, branch, base_branch, replies, at) {
        lemma_register_asks(store_of(root), name, branch, server.session_id, replies, n);
    }
    lemma_commands_differ();
    assert(args.len() == 2 || args.len() == 3 || args.len() == 4);
    assert(seq!["show-ref"@, "--verify"@, "--quiet"@, "refs/heads/"@ + branch][0] == "show-ref"@);
    assert(seq!["worktree"@, "list"@, "--porcelain"@][0] == "worktree"@);
    assert(seq!["status"@, "--porcelain"@][0] == "status"@);
    assert(args[0] == "branch"@ || args[0] == "worktree"@);
}

/// The path that is given back for a new worktree is absolute, and it is the one that
/// was looked at before and the one that git was told last to make the worktree at.
pub proof fn law_new_worktrees_are_where_it_is_said(
    repo: Seq<char>,
    name: Seq<char>,
    branch: Seq<char>,
    base_branch: Option<Seq<char>>,
    allow_dirty: bool,
    replies: Seq<ReplyView>,
    at: nat,
    path: Seq<char>,
    n: nat,
)
    requires
        at <= replies.len(),
        worktree_add_impl_flow(repo, name, branch, base_branch, allow_dirty, replies, at) == Ok::<
            _,
            HaltView<DomainErrorView>,
        >((path, n)),
    ensures
        is_absolute(path),
        n <= replies.len(),
        worktree_add_impl_flow(
            repo,
            name,
            branch,
            base_branch,
            allow_dirty,
            replies.take(n - 1),
            at,
        ) matches Err(HaltView::Ask(last)) && last == git(
            repo,
            seq!["worktree"@, "add"@, path, branch],
        ),
        home_flow(repo, replies, at) matches Ok((_, m)) && worktree_add_impl_flow(
            repo,
            name,
            branch,
            base_branch,
            allow_dirty,
            replies.take(m as int),
            at,
        ) matches Err(HaltView::Ask(first)) && first == (ActionView::PathExists { path }),
{
    let (home, m) = home_flow(repo, replies, at)->Ok_0;
    lemma_worktree_path_is_absolute(home, name);
    assert(home_flow(repo, replies.take(m as int), at) == home_flow(repo, replies, at));
    assert(home_flow(repo, replies.take(n - 1), at) == home_flow(repo, replies, at));
}

// ---------------------------------------------------------------------------
// Commits
// ---------------------------------------------------------------------------

/// A path is found to begin with a dash if and only if one does.
proof fn lemma_first_dashed(paths: Seq<Seq<char>>)
    ensures
        first_dashed(paths) is Some <==> exists|i: int|
            0 <= i < paths.len() && begins_with(#[trigger] paths[i], "-"@),
    decreases paths.len(),
{
    if paths.len() > 0 && !begins_with(paths[0], "-"@) {
        lemma_first_dashed(paths.drop_first());
        if first_dashed(paths.drop_first()) is Some {
            let i = choose|i: int|
                0 <= i < paths.drop_first().len() && begins_with(
                    #[trigger] paths.drop_first()[i],
                    "-"@,
                );
            assert(begins_with(paths[i + 1], "-"@));
        }
        if exists|i: int| 0 <= i < paths.len() && begins_with(#[trigger] paths[i], "-"@) {
            let i = choose|i: int|
                0 <= i < paths.len() && begins_with(#[trigger] paths[i], "-"@);
            assert(paths.drop_first()[i - 1] == paths[i]);
        }
    }
}

/// A commit with paths of which one begins with a dash fails before anything is
/// asked for.
pub proof fn law_dashed_paths_are_refused(
    server: ServerView,
    working_dir: Seq<char>,
    message: Seq<char>,
    paths: Seq<Seq<char>>,
    replies: Seq<ReplyView>,
    at: nat,
)
    requires
        exists|i: int| 0 <= i < paths.len() && begins_with(#[trigger] paths[i], "-"@),
    ensures
        call_flow(
            server,
            ToolCallView::Commit { working_dir, message, paths: Some(paths) },
            replies,
            at,
        ) matches Err(HaltView::Fail(_, n)) && n == at,
{
    lemma_first_dashed(paths);
    reveal(tool_flow);
}

/// A commit stages the paths that are given, and everything only where none is; and
/// it commits only where something is staged.
pub proof fn law_commits_what_is_chosen(
    server: ServerView,
    working_dir: Seq<char>,
    message: Seq<char>,
    paths: Option<Seq<Seq<char>>>,
    replies: Seq<ReplyView>,
    at: nat,
)
    ensures
        match call_flow(
            server,
            ToolCallView::Commit { working_dir, message, paths },
            replies,
            at,
        ) {
            Err(HaltView::Ask(ActionView::Git { args, .. })) => {
                &&& args.len() > 0 && args[0] == "add"@ ==> if paths is Some && paths->0.len() > 0 {
                    args == seq!["add"@, "--"@] + paths->0
                } else {
                    args == seq!["add"@, "-A"@]
                }
                &&& args.len() > 0 && args[0] == "commit"@ ==> {
                    let staged = git_text(
                        working_dir,
                        seq!["diff"@, "--cached"@, "--stat"@],
                        replies,
                        at + 1,
                    );
                    staged is Ok && staged->Ok_0.0.len() > 0
                }
            },
            _ => true,
        },
{
    let call = ToolCallView::Commit { working_dir, message, paths };
    let f = commit_tool(working_dir, message, paths, replies, at);
    assert(call_flow(server, call, replies, at) == as_text(f) || call_flow(
        server,
        call,
        replies,
        at,
    ) is Err && call_flow(server, call, replies, at)->Err_0 is Fail) by {
        reveal(tool_flow);
    }
    lemma_commands_differ();
    assert(add_args(paths)[0] == "add"@);
    assert(seq!["diff"@, "--cached"@, "--stat"@][0] == "diff"@);
    assert(seq!["commit"@, "-m"@, message][0] == "commit"@);
    assert(seq!["rev-parse"@, "--short"@, "HEAD"@][0] == "rev-parse"@);
}

// ---------------------------------------------------------------------------
// Commands that are never run
// ---------------------------------------------------------------------------

/// The first words of the git commands that are run differ where it matters.
proof fn lemma_commands_differ()
    ensures
        "branch"@ != "worktree"@,
        "show-ref"@ != "branch"@,
        "show-ref"@ != "worktree"@,
        "status"@ != "branch"@,
        "status"@ != "worktree"@,
        "list"@ != "add"@,
        "diff"@ != "add"@,
        "commit"@ != "add"@,
        "rev-parse"@ != "add"@,
        "diff"@ != "commit"@,
        "rev-parse"@ != "commit"@,
{
    reveal_strlit("branch");
    reveal_strlit("worktree");
    reveal_strlit("show-ref");
    reveal_strlit("status");
    reveal_strlit("list");
    reveal_strlit("add");
    reveal_strlit("diff");
    reveal_strlit("commit");
    reveal_strlit("rev-parse");
    assert("branch"@[0] == 'b' && "status"@[0] == 's' && "worktree"@[0] == 'w' && "show-ref"@[0]
        == 's' && "list"@[0] == 'l' && "add"@[0] == 'a' && "diff"@[0] == 'd' && "commit"@[0] == 'c'
        && "rev-parse"@[0] == 'r');
}

/// The first words of the git commands that any call may run.
pub open spec fn is_subcommand(word: Seq<char>) -> bool {
    ||| word == "branch"@
    ||| word == "worktree"@
    ||| word == "remote"@
    ||| word == "status"@
    ||| word == "diff"@
    ||| word == "log"@
    ||| word == "rev-parse"@
    ||| word == "show-ref"@
    ||| word == "rev-list"@
    ||| word == "merge-base"@
    ||| word == "for-each-ref"@
    ||| word == "ls-remote"@
    ||| word == "add"@
    ||| word == "commit"@
    ||| word == "merge"@
    ||| word == "reset"@
    ||| word == "fetch"@
}

/// Neither pushing nor cloning is among the commands; `reset` and `remote` are others
/// than the rest.
proof fn lemma_subcommands(word: Seq<char>)
    requires
        is_subcommand(word),
    ensures
        word != "push"@,
        word != "clone"@,
        word != "pull"@,
{
    reveal_strlit("branch");
    reveal_strlit("worktree");
    reveal_strlit("remote");
    reveal_strlit("status");
    reveal_strlit("diff");
    reveal_strlit("log");
    reveal_strlit("rev-parse");
    reveal_strlit("show-ref");
    reveal_strlit("rev-list");
    reveal_strlit("merge-base");
    reveal_strlit("for-each-ref");
    reveal_strlit("ls-remote");
    reveal_strlit("add");
    reveal_strlit("commit");
    reveal_strlit("merge");
    reveal_strlit("reset");
    reveal_strlit("fetch");
    reveal_strlit("push");
    reveal_strlit("clone");
    reveal_strlit("pull");
    assert("push"@[0] == 'p' && "pull"@[0] == 'p' && "clone"@[0] == 'c' && "clone"@.len() == 5);
    assert(word[0] != 'p');
    assert(word[0] == 'c' ==> word.len() == 6);
}

/// Which commands begin with `reset` and which with `remote`.
proof fn lemma_reset_and_remote()
    ensures
        forall|word: Seq<char>|
            #![trigger is_subcommand(word)]
            word == "branch"@ || word == "worktree"@ || word == "status"@ || word == "diff"@ || word
                == "log"@ || word == "rev-parse"@ || word == "show-ref"@ || word == "rev-list"@
                || word == "merge-base"@ || word == "for-each-ref"@ || word == "ls-remote"@ || word
                == "add"@ || word == "commit"@ || word == "merge"@ || word == "fetch"@ ==> word
                != "reset"@ && word != "remote"@,
        "reset"@ != "remote"@,
{
    reveal_strlit("branch");
    reveal_strlit("worktree");
    reveal_strlit("remote");
    reveal_strlit("status");
    reveal_strlit("diff");
    reveal_strlit("log");
    reveal_strlit("rev-parse");
    reveal_strlit("show-ref");
    reveal_strlit("rev-list");
    reveal_strlit("merge-base");
    reveal_strlit("for-each-ref");
    reveal_strlit("ls-remote");
    reveal_strlit("add");
    reveal_strlit("commit");
    reveal_strlit("merge");
    reveal_strlit("reset");
    reveal_strlit("fetch");
    assert("reset"@[0] == 'r' && "reset"@.len() == 5);
    assert("remote"@[0] == 'r' && "remote"@.len() == 6);
    assert("rev-parse"@.len() == 9 && "rev-list"@.len() == 8);
    assert("branch"@[0] == 'b' && "worktree"@[0] == 'w' && "status"@[0] == 's' && "diff"@[0] == 'd'
        && "log"@[0] == 'l' && "show-ref"@[0] == 's' && "merge-base"@[0] == 'm'
        && "for-each-ref"@[0] == 'f' && "ls-remote"@[0] == 'l' && "add"@[0] == 'a' && "commit"@[0]
        == 'c' && "merge"@[0] == 'm' && "fetch"@[0] == 'f');
}

/// Whatever is called, git is never run to push, pull or clone, and `git remote` only
/// to list the remotes.
pub proof fn law_never_pushes(
    server: ServerView,
    call: ToolCallView,
    replies: Seq<ReplyView>,
    at: nat,
)
    ensures
        match call_flow(server, call, replies, at) {
            Err(HaltView::Ask(ActionView::Git { args, .. })) => {
                &&& args.len() > 0
                &&& is_subcommand(args[0])
                &&& args[0] != "push"@ && args[0] != "pull"@ && args[0] != "clone"@
                &&& args[0] == "remote"@ ==> args == seq!["remote"@, "-v"@]
            },
            _ => true,
        },
{
    law_calls_ask_only_for_theirs(server, call, replies, at);
    lemma_reset_and_remote();
    if let Err(HaltView::Ask(ActionView::Git { args, .. })) = call_flow(
        server,
        call,
        replies,
        at,
    ) {
        assert(args.len() > 0 && is_subcommand(args[0]));
        lemma_subcommands(args[0]);
    }
}

/// Whatever is called, `git reset` is run in the modes soft and mixed alone, so that
/// nothing in the working tree is lost; and a reset in any other mode fails before
/// anything is asked for.
pub proof fn law_never_resets_hard(
    server: ServerView,
    call: ToolCallView,
    replies: Seq<ReplyView>,
    at: nat,
)
    ensures
        match call_flow(server, call, replies, at) {
            Err(HaltView::Ask(ActionView::Git { args, .. })) => args.len() > 0 && args[0]
                == "reset"@ ==> args.len() == 3 && (args[1] == "--soft"@ || args[1] == "--mixed"@),
            _ => true,
        },
        (call matches ToolCallView::SafeReset { mode: Some(mode), .. } && !is_safe_mode(mode)
            && !holds_back(server.mode, tool_of(call))) ==> call_flow(server, call, replies, at)
            == failed(told(unsafe_mode(call->SafeReset_mode->0)), at),
{
    law_calls_ask_only_for_theirs(server, call, replies, at);
    lemma_reset_and_remote();
    reveal_strlit("--soft");
    reveal_strlit("--mixed");
    reveal_strlit("--");
    reveal_strlit("soft");
    reveal_strlit("mixed");
    assert("--"@ + "soft"@ =~= "--soft"@);
    assert("--"@ + "mixed"@ =~= "--mixed"@);
    if let Err(HaltView::Ask(ActionView::Git { args, .. })) = call_flow(
        server,
        call,
        replies,
        at,
    ) {
        assert(args.len() > 0 && is_subcommand(args[0]));
    }
    if let ToolCallView::SafeReset { working_dir, mode: Some(mode), target } = call {
        if !is_safe_mode(mode) {
            assert(safe_reset_tool(working_dir, Some(mode), target, replies, at) is Err);
            reveal(tool_flow);
        }
    }
}

} // verus!
