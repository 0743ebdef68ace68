//! Deleting and merging branches.

use vstd::prelude::*;
use vstd::string::*;
use crate::domain::error::{DomainError, DomainErrorView};
use crate::domain::worktree::{MergeResult, MergeResultView, Worktree, WorktreeView};
use crate::infra::git::path::{resolve, resolved_flow};
use crate::infra::git::worktree::{worktree_list, worktree_list_flow};
use crate::protocol::{
    ask_flag, canonical, canonicalize, flag, flow_view, git_text, run_git, Action, ActionView, Flow,
    FlowView, Halt, HaltView, Reply, ReplyView, Resolved,
};
use crate::text::{contains, holds, same, words2, words3, words5};

verus! {

// ---------------------------------------------------------------------------
// Where to run
// ---------------------------------------------------------------------------

/// A working directory, where one is given, must be a directory.
pub open spec fn directory_flow(
    working_dir: Option<Seq<char>>,
    replies: Seq<ReplyView>,
    at: nat,
) -> FlowView<(), DomainErrorView> {
    match working_dir {
        Some(path) => match flag(ActionView::IsDirectory { path }, replies, at) {
            Ok((yes, n)) => if yes {
                Ok(((), n))
            } else {
                let message = "working_dir does not exist or is not a directory: "@ + path;
                Err(HaltView::Fail(DomainErrorView::Git(message), n))
            },
            Err(h) => Err(h),
        },
        None => Ok(((), at)),
    }
}

/// Checks that a working directory, where one is given, is a directory.
fn check_directory(working_dir: Option<&str>, replies: &[Reply], at: usize) -> (r: Flow<
    (),
    DomainError,
>)
    ensures
        flow_view(r) == directory_flow(working_dir.deep_view(), replies.deep_view(), at as nat),
{
    match working_dir {
        Some(path) => {
            let (yes, at) = ask_flag(
                Action::IsDirectory { path: path.to_string() },
                replies,
                at,
            )?;
            if !yes {
                let message = "working_dir does not exist or is not a directory: ".to_string()
                    .concat(path);
                return Err(Halt::Fail(DomainError::Git(message), at));
            }
            Ok(((), at))
        },
        None => Ok(((), at)),
    }
}

/// The given working directory, or else the repository.
pub open spec fn run_dir_of(repo: Seq<char>, working_dir: Option<Seq<char>>) -> Seq<char> {
    match working_dir {
        Some(path) => path,
        None => repo,
    }
}

/// The given working directory, or else the repository.
fn run_dir<'a>(repo: &'a str, working_dir: Option<&'a str>) -> (r: &'a str)
    ensures
        r@ == run_dir_of(repo@, working_dir.deep_view()),
{
    match working_dir {
        Some(path) => path,
        None => repo,
    }
}

// ---------------------------------------------------------------------------
// Deleting
// ---------------------------------------------------------------------------

/// Whether one of the worktrees resolves to `target`: they are resolved one by
/// one until one does; those that do not resolve are passed over.
pub open spec fn among_flow(
    worktrees: Seq<WorktreeView>,
    target: Seq<char>,
    replies: Seq<ReplyView>,
    at: nat,
) -> FlowView<bool, DomainErrorView>
    decreases worktrees.len(),
{
    if worktrees.len() == 0 {
        Ok((false, at))
    } else {
        match canonical(worktrees[0].path, replies, at) {
            Ok((resolved, n)) => if resolved == Ok::<_, Seq<char>>(target) {
                Ok((true, n))
            } else {
                among_flow(worktrees.drop_first(), target, replies, n)
            },
            Err(h) => Err(h),
        }
    }
}

/// A directory to delete a branch in: the repository itself or one of its
/// worktrees, by the resolved paths.
pub open spec fn known_dir_flow(
    repo: Seq<char>,
    dir: Seq<char>,
    replies: Seq<ReplyView>,
    at: nat,
) -> FlowView<(), DomainErrorView> {
    match resolved_flow("working_dir"@, dir, replies, at) {
        Ok((target, n)) => match resolved_flow("repo"@, repo, replies, n) {
            Ok((root, n)) => if target == root {
                Ok(((), n))
            } else {
                match worktree_list_flow(repo, replies, n) {
                    Ok((worktrees, n)) => match among_flow(worktrees, target, replies, n) {
                        Ok((known, n)) => if known {
                            Ok(((), n))
                        } else {
                            let message =
                                "working_dir is neither repo root nor a known worktree of "@ + repo
                                + ": "@ + dir;
                            Err(HaltView::Fail(DomainErrorView::Git(message), n))
                        },
                        Err(h) => Err(h),
                    },
                    Err(h) => Err(h),
                }
            },
            Err(h) => Err(h),
        },
        Err(h) => Err(h),
    }
}

/// Deleting a merged branch, in the working directory where one is given.
pub open spec fn branch_delete_flow(
    repo: Seq<char>,
    branch: Seq<char>,
    working_dir: Option<Seq<char>>,
    replies: Seq<ReplyView>,
    at: nat,
) -> FlowView<(), DomainErrorView> {
    let checked = match directory_flow(working_dir, replies, at) {
        Ok((_, n)) => match working_dir {
            Some(dir) => known_dir_flow(repo, dir, replies, n),
            None => Ok(((), n)),
        },
        Err(h) => Err(h),
    };
    match checked {
        Ok((_, n)) => match git_text(
            run_dir_of(repo, working_dir),
            seq!["branch"@, "-d"@, branch],
            replies,
            n,
        ) {
            Ok((_, n)) => Ok(((), n)),
            Err(HaltView::Fail(DomainErrorView::Git(message), n)) => if holds(
                message,
                "not found"@,
            ) {
                Err(HaltView::Fail(DomainErrorView::BranchNotFound(branch), n))
            } else {
                Err(HaltView::Fail(DomainErrorView::Git(message), n))
            },
            Err(h) => Err(h),
        },
        Err(h) => Err(h),
    }
}

/// Whether one of the worktrees resolves to `target`.
fn among(worktrees: &[Worktree], target: &str, replies: &[Reply], start: usize) -> (r: Flow<
    bool,
    DomainError,
>)
    ensures
        flow_view(r) == among_flow(
            worktrees.deep_view(),
            target@,
            replies.deep_view(),
            start as nat,
        ),
{
    let ghost ws = worktrees.deep_view();
    let ghost rs = replies.deep_view();
    let mut at: usize = start;
    let mut i: usize = 0;
    assert(ws.skip(0) =~= ws);
    while i < worktrees.len()
        invariant
            ws == worktrees.deep_view(),
            rs == replies.deep_view(),
            i <= worktrees@.len(),
            among_flow(ws, target@, rs, start as nat) == among_flow(
                ws.skip(i as int),
                target@,
                rs,
                at as nat,
            ),
        decreases worktrees@.len() - i,
    {
        assert(ws.skip(i as int)[0] == worktrees@[i as int].deep_view());
        assert(ws.skip(i as int).drop_first() =~= ws.skip(i + 1));
        let (resolved, next) = canonicalize(worktrees[i].path.as_str(), replies, at)?;
        if let Resolved::Path(p) = resolved {
            if same(p.as_str(), target) {
                return Ok((true, next));
            }
        }
        at = next;
        i += 1;
    }
    Ok((false, at))
}

/// Checks that `dir` is the repository or one of its worktrees.
fn check_known_dir(repo: &str, dir: &str, replies: &[Reply], at: usize) -> (r: Flow<
    (),
    DomainError,
>)
    ensures
        flow_view(r) == known_dir_flow(repo@, dir@, replies.deep_view(), at as nat),
{
    let (target, at) = resolve("working_dir", dir, replies, at)?;
    let (root, at) = resolve("repo", repo, replies, at)?;
    if same(target.as_str(), root.as_str()) {
        return Ok(((), at));
    }
    let (worktrees, at) = worktree_list(repo, replies, at)?;
    let (known, at) = among(worktrees.as_slice(), target.as_str(), replies, at)?;
    if !known {
        let message = "working_dir is neither repo root nor a known worktree of ".to_string()
            .concat(repo).concat(": ").concat(dir);
        return Err(Halt::Fail(DomainError::Git(message), at));
    }
    Ok(((), at))
}

/// Deletes a merged branch.
pub fn branch_delete(
    repo: &str,
    branch: &str,
    working_dir: Option<&str>,
    replies: &[Reply],
    at: usize,
) -> (r: Flow<(), DomainError>)
    ensures
        flow_view(r) == branch_delete_flow(
            repo@,
            branch@,
            working_dir.deep_view(),
            replies.deep_view(),
            at as nat,
        ),
{
    let (_, at) = check_directory(working_dir, replies, at)?;
    let (_, at) = match working_dir {
        Some(dir) => check_known_dir(repo, dir, replies, at)?,
        None => ((), at),
    };
    match run_git(run_dir(repo, working_dir), words3("branch", "-d", branch), replies, at) {
        Ok((_, at)) => Ok(((), at)),
        Err(Halt::Fail(DomainError::Git(message), at)) => if contains(
            message.as_str(),
            "not found",
        ) {
            Err(Halt::Fail(DomainError::BranchNotFound(branch.to_string()), at))
        } else {
            Err(Halt::Fail(DomainError::Git(message), at))
        },
        Err(h) => Err(h),
    }
}

// ---------------------------------------------------------------------------
// Merging
// ---------------------------------------------------------------------------

/// The command that merges `branch`.
pub open spec fn merge_args(branch: Seq<char>) -> Seq<Seq<char>> {
    seq!["merge"@, branch, "--no-ff"@, "-m"@, "merge: "@ + branch]
}

/// Merging `branch` into `into_branch`, which must be checked out where the
/// merge runs.
pub open spec fn merge_flow(
    repo: Seq<char>,
    branch: Seq<char>,
    into_branch: Seq<char>,
    working_dir: Option<Seq<char>>,
    replies: Seq<ReplyView>,
    at: nat,
) -> FlowView<MergeResultView, DomainErrorView> {
    let dir = run_dir_of(repo, working_dir);
    match directory_flow(working_dir, replies, at) {
        Ok((_, n)) => match git_text(dir, seq!["branch"@, "--show-current"@], replies, n) {
            Ok((current, n)) => if current != into_branch {
                let message = "must be on branch '"@ + into_branch + "' to merge, currently on '"@
                    + current + "'"@;
                Err(HaltView::Fail(DomainErrorView::Git(message), n))
            } else {
                match git_text(dir, merge_args(branch), replies, n) {
                    Ok((summary, n)) => Ok(
                        (MergeResultView { merged_branch: branch, into_branch, summary }, n),
                    ),
                    Err(h) => Err(h),
                }
            },
            Err(h) => Err(h),
        },
        Err(h) => Err(h),
    }
}

/// Merges `branch` into `into_branch`.
pub fn merge(
    repo: &str,
    branch: &str,
    into_branch: &str,
    working_dir: Option<&str>,
    replies: &[Reply],
    at: usize,
) -> (r: Flow<MergeResult, DomainError>)
    ensures
        flow_view(r) == merge_flow(
            repo@,
            branch@,
            into_branch@,
            working_dir.deep_view(),
            replies.deep_view(),
            at as nat,
        ),
{
    let (_, at) = check_directory(working_dir, replies, at)?;
    let dir = run_dir(repo, working_dir);
    let (current, at) = run_git(dir, words2("branch", "--show-current"), replies, at)?;
    if !same(current.as_str(), into_branch) {
        let message = "must be on branch '".to_string().concat(into_branch).concat(
            "' to merge, currently on '",
        ).concat(current.as_str()).concat("'");
        return Err(Halt::Fail(DomainError::Git(message), at));
    }
    let text = "merge: ".to_string().concat(branch);
    let args = words5("merge", branch, "--no-ff", "-m", text.as_str());
    let (summary, at) = run_git(dir, args, replies, at)?;
    Ok(
        (
            MergeResult {
                merged_branch: branch.to_string(),
                into_branch: into_branch.to_string(),
                summary,
            },
            at,
        ),
    )
}

} // verus!
