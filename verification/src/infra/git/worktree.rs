//! Listing, adding and removing worktrees.

use vstd::prelude::*;
use vstd::string::*;
use crate::domain::error::{DomainError, DomainErrorView};
use crate::domain::worktree::{Worktree, WorktreeView};
use crate::infra::git::path::{
    find_home, home_flow, is_absolute, lemma_worktree_path_is_absolute, worktree_path,
    worktree_path_of,
};
use crate::protocol::{
    ask_flag, flag, flow_view, git, git_text, read_variable, replied, reply_to, run_git, succeeded,
    variable, Action, ActionView, Flow, FlowView, Halt, HaltView, Reply, ReplyView,
};
use crate::text::{
    append, behind, behind_all, lines, lines_of, same, strip_all, strip_prefix, trim, trimmed,
    words2, words3, words4,
};

verus! {

// ---------------------------------------------------------------------------
// Listing
// ---------------------------------------------------------------------------

/// How far the reading of a worktree list has come: the records that are
/// complete, and the path, the branch and the bare mark of the one that is not.
pub struct ListState {
    pub complete: Seq<WorktreeView>,
    pub path: Option<Seq<char>>,
    pub branch: Option<Seq<char>>,
    pub bare: bool,
}

/// The complete records, and the open one behind them where it has a path.
pub open spec fn records(st: ListState) -> Seq<WorktreeView> {
    match st.path {
        Some(path) => st.complete.push(
            WorktreeView { path, branch: st.branch, is_bare: st.bare },
        ),
        None => st.complete,
    }
}

/// One line of the list. A `worktree` line completes the record before it and
/// opens one; a `branch` line names the branch, a `bare` line marks the
/// repository; other lines say nothing.
pub open spec fn list_line(st: ListState, line: Seq<char>) -> ListState {
    if let Some(path) = behind(line, "worktree "@) {
        if st.path is Some {
            ListState { complete: records(st), path: Some(path), branch: None, bare: false }
        } else {
            ListState { path: Some(path), ..st }
        }
    } else if let Some(name) = behind(line, "branch "@) {
        ListState { branch: Some(behind_all(name, "refs/heads/"@)), ..st }
    } else if line == "bare"@ {
        ListState { bare: true, ..st }
    } else {
        st
    }
}

/// The state after the lines.
pub open spec fn list_state(lines: Seq<Seq<char>>) -> ListState
    decreases lines.len(),
{
    if lines.len() == 0 {
        ListState { complete: seq![], path: None, branch: None, bare: false }
    } else {
        list_line(list_state(lines.drop_last()), lines.last())
    }
}

/// The records of a list in porcelain format.
pub open spec fn worktrees_in(list: Seq<char>) -> Seq<WorktreeView> {
    records(list_state(lines_of(list)))
}

/// The worktrees of `repo`.
pub open spec fn worktree_list_flow(repo: Seq<char>, replies: Seq<ReplyView>, at: nat) -> FlowView<
    Seq<WorktreeView>,
    DomainErrorView,
> {
    match git_text(repo, seq!["worktree"@, "list"@, "--porcelain"@], replies, at) {
        Ok((list, n)) => Ok((worktrees_in(list), n)),
        Err(h) => Err(h),
    }
}

/// Reads a list in porcelain format.
pub fn parse_worktrees(list: &str) -> (r: Vec<Worktree>)
    ensures
        r.deep_view() == worktrees_in(list@),
{
    let all = lines(list);
    let ghost ls = all.deep_view();
    let mut complete: Vec<Worktree> = Vec::new();
    let mut path: Option<String> = None;
    let mut branch: Option<String> = None;
    let mut bare = false;
    let mut i: usize = 0;
    assert(complete.deep_view() =~= seq![]);
    while i < all.len()
        invariant
            ls == all.deep_view(),
            i <= all@.len(),
            list_state(ls.take(i as int)) == (ListState {
                complete: complete.deep_view(),
                path: path.deep_view(),
                branch: branch.deep_view(),
                bare,
            }),
        decreases all@.len() - i,
    {
        let line = all[i].as_str();
        assert(ls.take(i + 1).drop_last() =~= ls.take(i as int));
        if let Some(next) = strip_prefix(line, "worktree ") {
            if let Some(before) = path {
                append(&mut complete, Worktree { path: before, branch, is_bare: bare });
                branch = None;
                bare = false;
            }
            path = Some(next);
        } else if let Some(name) = strip_prefix(line, "branch ") {
            branch = Some(strip_all(name.as_str(), "refs/heads/"));
        } else if same(line, "bare") {
            bare = true;
        }
        i += 1;
    }
    assert(ls.take(i as int) =~= ls);
    if let Some(last) = path {
        append(&mut complete, Worktree { path: last, branch, is_bare: bare });
    }
    complete
}

/// The worktrees of `repo`.
pub fn worktree_list(repo: &str, replies: &[Reply], at: usize) -> (r: Flow<
    Vec<Worktree>,
    DomainError,
>)
    ensures
        flow_view(r) == worktree_list_flow(repo@, replies.deep_view(), at as nat),
{
    let (list, at) = run_git(repo, words3("worktree", "list", "--porcelain"), replies, at)?;
    Ok((parse_worktrees(list.as_str()), at))
}

// ---------------------------------------------------------------------------
// Adding
// ---------------------------------------------------------------------------

/// Whether `repo` has a local branch of exactly that name.
pub open spec fn branch_exists_flow(
    repo: Seq<char>,
    branch: Seq<char>,
    replies: Seq<ReplyView>,
    at: nat,
) -> FlowView<bool, DomainErrorView> {
    let args = seq!["show-ref"@, "--verify"@, "--quiet"@, "refs/heads/"@ + branch];
    match replied(git(repo, args), replies, at) {
        Ok(ReplyView::Output(o)) => Ok((succeeded(o), at + 1)),
        Ok(ReplyView::Failed(e)) => Err(HaltView::Fail(DomainErrorView::Io(e), at + 1)),
        Ok(_) => Err(HaltView::Mismatch),
        Err(h) => Err(h),
    }
}

/// Whether `repo` has a local branch of exactly that name.
pub fn branch_exists(repo: &str, branch: &str, replies: &[Reply], at: usize) -> (r: Flow<
    bool,
    DomainError,
>)
    ensures
        flow_view(r) == branch_exists_flow(repo@, branch@, replies.deep_view(), at as nat),
{
    let name = "refs/heads/".to_string().concat(branch);
    let args = words4("show-ref", "--verify", "--quiet", name.as_str());
    match reply_to(Action::Git { dir: repo.to_string(), args }, replies, at)? {
        Reply::Output(o) => Ok((o.code == Some(0), at + 1)),
        Reply::Failed(e) => Err(Halt::Fail(DomainError::Io(e.clone()), at + 1)),
        _ => Err(Halt::Mismatch),
    }
}

/// The index of the first worktree that has `branch` checked out, or the number
/// of worktrees.
pub open spec fn checked_out_at(worktrees: Seq<WorktreeView>, branch: Seq<char>) -> nat
    decreases worktrees.len(),
{
    if worktrees.len() == 0 || worktrees[0].branch == Some(branch) {
        0
    } else {
        1 + checked_out_at(worktrees.drop_first(), branch)
    }
}

/// What is wrong where a base branch has changes that are not committed.
pub open spec fn dirty_base(base: Seq<char>, path: Seq<char>) -> DomainErrorView {
    DomainErrorView::Git("base_branch has uncommitted changes: "@ + base + " at "@ + path)
}

/// The check of a base branch: where a worktree has it checked out, that worktree
/// must be clean.
pub open spec fn clean_base_flow(
    repo: Seq<char>,
    base: Seq<char>,
    replies: Seq<ReplyView>,
    at: nat,
) -> FlowView<(), DomainErrorView> {
    match worktree_list_flow(repo, replies, at) {
        Ok((worktrees, n)) => {
            let i = checked_out_at(worktrees, base);
            if i < worktrees.len() {
                let path = worktrees[i as int].path;
                match git_text(path, seq!["status"@, "--porcelain"@], replies, n) {
                    Ok((changes, n)) => if trimmed(changes).len() > 0 {
                        Err(HaltView::Fail(dirty_base(base, path), n))
                    } else {
                        Ok(((), n))
                    },
                    Err(h) => Err(h),
                }
            } else {
                Ok(((), n))
            }
        },
        Err(h) => Err(h),
    }
}

/// Checks that a base branch that is checked out anywhere is clean there.
fn check_base(repo: &str, base: &str, replies: &[Reply], at: usize) -> (r: Flow<(), DomainError>)
    ensures
        flow_view(r) == clean_base_flow(repo@, base@, replies.deep_view(), at as nat),
{
    let (worktrees, at) = worktree_list(repo, replies, at)?;
    let ghost ws = worktrees.deep_view();
    let mut i: usize = 0;
    assert(ws.skip(0) =~= ws);
    while i < worktrees.len()
        invariant_except_break
            i <= worktrees@.len(),
            checked_out_at(ws, base@) == i + checked_out_at(ws.skip(i as int), base@),
        invariant
            ws == worktrees.deep_view(),
        ensures
            i <= worktrees@.len(),
            checked_out_at(ws, base@) == i,
        decreases worktrees@.len() - i,
    {
        assert(ws.skip(i as int)[0] == worktrees@[i as int].deep_view());
        if let Some(b) = &worktrees[i].branch {
            if same(b.as_str(), base) {
                break;
            }
        }
        assert(ws.skip(i as int).drop_first() =~= ws.skip(i + 1));
        i += 1;
    }
    if i < worktrees.len() {
        let path = worktrees[i].path.as_str();
        let (changes, at) = run_git(path, words2("status", "--porcelain"), replies, at)?;
        if !trim(changes.as_str()).as_str().is_empty() {
            let message = "base_branch has uncommitted changes: ".to_string().concat(base).concat(
                " at ",
            ).concat(path);
            return Err(Halt::Fail(DomainError::Git(message), at));
        }
        Ok(((), at))
    } else {
        Ok(((), at))
    }
}

/// Adding a worktree on a new branch, under the absolute path of the repository: the
/// worktree must not be there, the branch must not be there, and a base branch must be
/// clean unless `allow_dirty` is set. Then the branch is made, from the base or from the
/// head, and the worktree on it.
pub open spec fn worktree_add_impl_flow(
    repo: Seq<char>,
    name: Seq<char>,
    branch: Seq<char>,
    base: Option<Seq<char>>,
    allow_dirty: bool,
    replies: Seq<ReplyView>,
    at: nat,
) -> FlowView<Seq<char>, DomainErrorView> {
    match home_flow(repo, replies, at) {
        Ok((home, n)) => worktree_at_flow(
            repo,
            worktree_path_of(home, name),
            name,
            branch,
            base,
            allow_dirty,
            replies,
            n,
        ),
        Err(h) => Err(h),
    }
}

/// Adding a worktree at `path`.
pub open spec fn worktree_at_flow(
    repo: Seq<char>,
    path: Seq<char>,
    name: Seq<char>,
    branch: Seq<char>,
    base: Option<Seq<char>>,
    allow_dirty: bool,
    replies: Seq<ReplyView>,
    at: nat,
) -> FlowView<Seq<char>, DomainErrorView> {
    match flag(ActionView::PathExists { path }, replies, at) {
        Ok((there, n)) => if there {
            Err(HaltView::Fail(DomainErrorView::WorktreeAlreadyExists(name), n))
        } else {
            match branch_exists_flow(repo, branch, replies, n) {
                Ok((exists, n)) => if exists {
                    let message = "branch already exists: "@ + branch;
                    Err(HaltView::Fail(DomainErrorView::Git(message), n))
                } else {
                    match base_branch_flow(repo, branch, base, allow_dirty, replies, n) {
                        Ok((_, n)) => match git_text(
                            repo,
                            seq!["worktree"@, "add"@, path, branch],
                            replies,
                            n,
                        ) {
                            Ok((_, n)) => Ok((path, n)),
                            Err(h) => Err(h),
                        },
                        Err(h) => Err(h),
                    }
                },
                Err(h) => Err(h),
            }
        },
        Err(h) => Err(h),
    }
}

/// Making the new branch, from the base where there is one, after its check
/// unless that is waived.
pub open spec fn base_branch_flow(
    repo: Seq<char>,
    branch: Seq<char>,
    base: Option<Seq<char>>,
    allow_dirty: bool,
    replies: Seq<ReplyView>,
    at: nat,
) -> FlowView<Seq<char>, DomainErrorView> {
    match base {
        Some(b) => {
            let checked = if allow_dirty {
                Ok(((), at))
            } else {
                clean_base_flow(repo, b, replies, at)
            };
            match checked {
                Ok((_, n)) => git_text(repo, seq!["branch"@, branch, b], replies, n),
                Err(h) => Err(h),
            }
        },
        None => git_text(repo, seq!["branch"@, branch], replies, at),
    }
}

/// Adds a worktree on a new branch, and gives back its absolute path.
pub fn worktree_add_impl(
    repo: &str,
    worktree_name: &str,
    branch: &str,
    base_branch: Option<&str>,
    allow_dirty: bool,
    replies: &[Reply],
    at: usize,
) -> (r: Flow<String, DomainError>)
    ensures
        flow_view(r) == worktree_add_impl_flow(
            repo@,
            worktree_name@,
            branch@,
            base_branch.deep_view(),
            allow_dirty,
            replies.deep_view(),
            at as nat,
        ),
        r matches Ok((path, _)) ==> is_absolute(path@),
{
    let (home, at) = find_home(repo, replies, at)?;
    let path = worktree_path(home.as_str(), worktree_name);
    proof {
        lemma_worktree_path_is_absolute(home@, worktree_name@);
    }
    let (there, at) = ask_flag(Action::PathExists { path: path.clone() }, replies, at)?;
    if there {
        return Err(Halt::Fail(DomainError::WorktreeAlreadyExists(worktree_name.to_string()), at));
    }
    let (exists, at) = branch_exists(repo, branch, replies, at)?;
    if exists {
        let message = "branch already exists: ".to_string().concat(branch);
        return Err(Halt::Fail(DomainError::Git(message), at));
    }
    let (_, at) = match base_branch {
        Some(base) => {
            let (_, at) = if allow_dirty {
                ((), at)
            } else {
                check_base(repo, base, replies, at)?
            };
            run_git(repo, words3("branch", branch, base), replies, at)?
        },
        None => run_git(repo, words2("branch", branch), replies, at)?,
    };
    let (_, at) = run_git(repo, words4("worktree", "add", path.as_str(), branch), replies, at)?;
    Ok((path, at))
}

/// The variable that waives the check of the base branch.
pub open spec fn allow_dirty_variable() -> Seq<char> {
    "GIT_WORKFLOW_ALLOW_DIRTY_BASE"@
}

/// The values of the variable that waive the check.
pub open spec fn waives(value: Option<Seq<char>>) -> bool {
    value == Some("1"@) || value == Some("true"@) || value == Some("yes"@)
}

/// Whether a value of the variable waives the check.
pub fn allows_dirty(value: &Option<String>) -> (r: bool)
    ensures
        r == waives(value.deep_view()),
{
    match value {
        Some(v) => same(v.as_str(), "1") || same(v.as_str(), "true") || same(v.as_str(), "yes"),
        None => false,
    }
}

/// Adding a worktree on a new branch, with the waiver read from the environment.
pub open spec fn worktree_add_flow(
    repo: Seq<char>,
    name: Seq<char>,
    branch: Seq<char>,
    base: Option<Seq<char>>,
    replies: Seq<ReplyView>,
    at: nat,
) -> FlowView<Seq<char>, DomainErrorView> {
    match variable(allow_dirty_variable(), replies, at) {
        Ok((value, n)) => worktree_add_impl_flow(
            repo,
            name,
            branch,
            base,
            waives(value),
            replies,
            n,
        ),
        Err(h) => Err(h),
    }
}

/// Adds a worktree on a new branch, and gives back its absolute path.
pub fn worktree_add(
    repo: &str,
    worktree_name: &str,
    branch: &str,
    base_branch: Option<&str>,
    replies: &[Reply],
    at: usize,
) -> (r: Flow<String, DomainError>)
    ensures
        flow_view(r) == worktree_add_flow(
            repo@,
            worktree_name@,
            branch@,
            base_branch.deep_view(),
            replies.deep_view(),
            at as nat,
        ),
        r matches Ok((path, _)) ==> is_absolute(path@),
{
    let (value, at) = read_variable("GIT_WORKFLOW_ALLOW_DIRTY_BASE", replies, at)?;
    worktree_add_impl(
        repo,
        worktree_name,
        branch,
        base_branch,
        allows_dirty(&value),
        replies,
        at,
    )
}

// ---------------------------------------------------------------------------
// Removing
// ---------------------------------------------------------------------------

/// Removing a worktree, which must be there.
pub open spec fn worktree_remove_flow(
    repo: Seq<char>,
    name: Seq<char>,
    replies: Seq<ReplyView>,
    at: nat,
) -> FlowView<(), DomainErrorView> {
    let path = worktree_path_of(repo, name);
    match flag(ActionView::PathExists { path }, replies, at) {
        Ok((there, n)) => if there {
            match git_text(repo, seq!["worktree"@, "remove"@, "--force"@, path], replies, n) {
                Ok((_, n)) => Ok(((), n)),
                Err(h) => Err(h),
            }
        } else {
            Err(HaltView::Fail(DomainErrorView::WorktreeNotFound(name), n))
        },
        Err(h) => Err(h),
    }
}

/// Removes a worktree.
pub fn worktree_remove(repo: &str, worktree_name: &str, replies: &[Reply], at: usize) -> (r: Flow<
    (),
    DomainError,
>)
    ensures
        flow_view(r) == worktree_remove_flow(
            repo@,
            worktree_name@,
            replies.deep_view(),
            at as nat,
        ),
{
    let path = worktree_path(repo, worktree_name);
    let (there, at) = ask_flag(Action::PathExists { path: path.clone() }, replies, at)?;
    if !there {
        return Err(Halt::Fail(DomainError::WorktreeNotFound(worktree_name.to_string()), at));
    }
    let args = words4("worktree", "remove", "--force", path.as_str());
    let (_, at) = run_git(repo, args, replies, at)?;
    Ok(((), at))
}

} // verus!
