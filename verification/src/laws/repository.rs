//! What operations do to a repository, where git does what it is documented to do.

use vstd::prelude::*;
use crate::domain::error::DomainErrorView;
use crate::domain::worktree::{ResetResultView, WorktreeView};
use crate::infra::git::branch::{among_flow, branch_delete_flow, run_dir_of};
use crate::infra::git::path::{
    home_flow, is_absolute, is_rooted, lemma_worktree_path_is_absolute, worktree_path_of,
};
use crate::infra::git::working::{is_safe_mode, reset_flow};
use crate::infra::git::worktree::{
    base_branch_flow, checked_out_at, clean_base_flow, waives, worktree_add_flow,
    worktree_add_impl_flow, worktree_list_flow, worktree_remove_flow, worktrees_in,
};
use crate::protocol::{
    answers, git_text, succeeded, ActionView, CommandOutputView, FlowView, HaltView, ReplyView,
};
use crate::text::{begins_with, holds, is_space, trimmed, trimmed_end, trimmed_start};

verus! {

// ---------------------------------------------------------------------------
// A repository
// ---------------------------------------------------------------------------

/// A repository and its worktrees.
pub struct Repository {
    /// The worktrees, as git lists them.
    pub worktrees: Seq<WorktreeView>,
    /// The paths at which something is.
    pub there: Set<Seq<char>>,
    /// The commit at the tip of each branch.
    pub branches: Map<Seq<char>, Seq<char>>,
    /// The commit that is checked out in each working directory.
    pub heads: Map<Seq<char>, Seq<char>>,
    /// The branch that is checked out in each working directory that has one.
    pub current: Map<Seq<char>, Seq<char>>,
    /// What is staged in each working directory.
    pub index: Map<Seq<char>, Seq<char>>,
    /// The files in each working directory.
    pub files: Map<Seq<char>, Seq<char>>,
    /// What `git status --porcelain` prints in each working directory.
    pub changes: Map<Seq<char>, Seq<char>>,
}

/// What does not change.
pub struct Facts {
    /// The commit that a revision names in a working directory.
    pub named: spec_fn(Repository, Seq<char>, Seq<char>) -> Seq<char>,
    /// The short name of a commit.
    pub short: spec_fn(Seq<char>) -> Seq<char>,
    /// The files of a commit.
    pub tree: spec_fn(Seq<char>) -> Seq<char>,
    /// Whether the history of a commit holds another commit.
    pub holds: spec_fn(Seq<char>, Seq<char>) -> bool,
    /// A path made absolute.
    pub absolute: spec_fn(Seq<char>) -> Seq<char>,
    /// The one absolute form of a path.
    pub resolved: spec_fn(Seq<char>) -> Seq<char>,
    /// Whether a path is that of a directory.
    pub is_dir: spec_fn(Seq<char>) -> bool,
}

/// The repository with `commit` checked out in `dir`; the branch there moves along.
pub open spec fn moved(s: Repository, dir: Seq<char>, commit: Seq<char>) -> Repository {
    Repository {
        heads: s.heads.insert(dir, commit),
        branches: if s.current.contains_key(dir) {
            s.branches.insert(s.current[dir], commit)
        } else {
            s.branches
        },
        ..s
    }
}

/// The repository after a command that succeeds. The commands that are not named change
/// nothing.
pub open spec fn effect(
    facts: Facts,
    s: Repository,
    dir: Seq<char>,
    args: Seq<Seq<char>>,
) -> Repository {
    let word = |i: int| args[i];
    if args.len() == 2 && word(0) == "branch"@ && !begins_with(word(1), "-"@) {
        Repository { branches: s.branches.insert(word(1), s.heads[dir]), ..s }
    } else if args.len() == 3 && word(0) == "branch"@ && word(1) == "-d"@ {
        Repository { branches: s.branches.remove(word(2)), ..s }
    } else if args.len() == 3 && word(0) == "branch"@ && !begins_with(word(1), "-"@) {
        Repository { branches: s.branches.insert(word(1), (facts.named)(s, dir, word(2))), ..s }
    } else if args.len() == 4 && word(0) == "worktree"@ && word(1) == "add"@ {
        Repository {
            worktrees: s.worktrees.push(
                WorktreeView { path: word(2), branch: Some(word(3)), is_bare: false },
            ),
            there: s.there.insert(word(2)),
            heads: s.heads.insert(word(2), s.branches[word(3)]),
            current: s.current.insert(word(2), word(3)),
            ..s
        }
    } else if args.len() == 4 && word(0) == "worktree"@ && word(1) == "remove"@ {
        Repository {
            worktrees: s.worktrees.filter(|w: WorktreeView| w.path != word(3)),
            there: s.there.remove(word(3)),
            heads: s.heads.remove(word(3)),
            current: s.current.remove(word(3)),
            ..s
        }
    } else if args.len() == 3 && word(0) == "reset"@ && word(1) == "--"@ + "soft"@ {
        moved(s, dir, (facts.named)(s, dir, word(2)))
    } else if args.len() == 3 && word(0) == "reset"@ && word(1) == "--"@ + "mixed"@ {
        let commit = (facts.named)(s, dir, word(2));
        Repository {
            index: s.index.insert(dir, (facts.tree)(commit)),
            ..moved(s, dir, commit)
        }
    } else {
        s
    }
}

/// Whether git deletes a branch without being forced: it is there, it is checked out
/// nowhere, and what is checked out in `dir` holds it. The branches here have no
/// upstream.
pub open spec fn can_be_deleted(
    facts: Facts,
    s: Repository,
    dir: Seq<char>,
    branch: Seq<char>,
) -> bool {
    &&& s.branches.contains_key(branch)
    &&& forall|i: int| 0 <= i < s.worktrees.len() ==> #[trigger] s.worktrees[i].branch != Some(
        branch,
    )
    &&& (facts.holds)(s.heads[dir], s.branches[branch])
}

/// What git says of a repository, and when it succeeds.
pub open spec fn says(
    facts: Facts,
    s: Repository,
    dir: Seq<char>,
    args: Seq<Seq<char>>,
    o: CommandOutputView,
) -> bool {
    &&& args.len() == 4 && args[0] == "show-ref"@ && begins_with(args[3], "refs/heads/"@)
        ==> succeeded(o) == s.branches.contains_key(args[3].skip("refs/heads/"@.len() as int))
    &&& args == seq!["worktree"@, "list"@, "--porcelain"@] ==> succeeded(o) && worktrees_in(
        trimmed(o.stdout),
    ) == s.worktrees
    &&& args == seq!["status"@, "--porcelain"@] ==> succeeded(o) && o.stdout == s.changes[dir]
    &&& args == seq!["rev-parse"@, "--short"@, "HEAD"@] ==> succeeded(o) && trimmed(o.stdout) == (
    facts.short)(s.heads[dir])
    &&& args.len() == 3 && args[0] == "branch"@ && args[1] == "-d"@ ==> succeeded(o)
        == can_be_deleted(facts, s, dir, args[2])
}

/// Whether the world goes from `before` to `after` when it answers `a` with `r`. A
/// command that fails changes nothing.
pub open spec fn goes(
    facts: Facts,
    before: Repository,
    a: ActionView,
    r: ReplyView,
    after: Repository,
) -> bool {
    match a {
        ActionView::Git { dir, args } => r matches ReplyView::Output(o) && says(
            facts,
            before,
            dir,
            args,
            o,
        ) && after == if succeeded(o) {
            effect(facts, before, dir, args)
        } else {
            before
        },
        ActionView::PathExists { path } => r == ReplyView::Flag(before.there.contains(path))
            && after == before,
        ActionView::IsDirectory { path } => r == ReplyView::Flag((facts.is_dir)(path)) && after
            == before,
        ActionView::MakeAbsolute { path } => r == ReplyView::Path((facts.absolute)(path)) && after
            == before,
        ActionView::Canonicalize { path } => r == ReplyView::Path((facts.resolved)(path)) && after
            == before,
        _ => answers(a, r) && after == before,
    }
}

/// Whether the replies come from a repository that goes through `states` while an
/// operation asks for one thing after the other.
pub open spec fn runs<T>(
    facts: Facts,
    op: spec_fn(Seq<ReplyView>) -> FlowView<T, DomainErrorView>,
    states: Seq<Repository>,
    replies: Seq<ReplyView>,
) -> bool {
    &&& states.len() == replies.len() + 1
    &&& forall|i: int|
        0 <= i < replies.len() ==> (op(#[trigger] replies.take(i)) matches Err(HaltView::Ask(a))
            && goes(facts, states[i], a, replies[i], states[i + 1]))
}

/// Whether an operation has come to its end.
pub open spec fn is_over<T>(f: FlowView<T, DomainErrorView>) -> bool {
    f is Ok || (f matches Err(HaltView::Fail(_, _)))
}

// ---------------------------------------------------------------------------
// Worktrees
// ---------------------------------------------------------------------------

/// Listing worktrees, as a function of the replies.
pub open spec fn listing(repo: Seq<char>) -> spec_fn(Seq<ReplyView>) -> FlowView<
    Seq<WorktreeView>,
    DomainErrorView,
> {
    |r: Seq<ReplyView>| worktree_list_flow(repo, r, 0)
}

/// Removing a worktree, as a function of the replies.
pub open spec fn removal(repo: Seq<char>, name: Seq<char>) -> spec_fn(Seq<ReplyView>) -> FlowView<
    (),
    DomainErrorView,
> {
    |r: Seq<ReplyView>| worktree_remove_flow(repo, name, r, 0)
}

/// Listing gives the worktrees there are, and changes nothing.
pub proof fn law_listing_gives_the_worktrees(
    facts: Facts,
    repo: Seq<char>,
    states: Seq<Repository>,
    replies: Seq<ReplyView>,
)
    requires
        runs(facts, listing(repo), states, replies),
    ensures
        states.last() == states[0],
        is_over(listing(repo)(replies)) ==> (listing(repo)(replies) matches Ok((worktrees, _))
            && worktrees == states[0].worktrees),
        replies.len() > 0 ==> is_over(listing(repo)(replies)),
{
    let args = seq!["worktree"@, "list"@, "--porcelain"@];
    if replies.len() > 0 {
        assert(replies.take(0).len() == 0);
        assert(args.len() == 3);
        assert(args[0] == "worktree"@);
        lemma_words();
        if replies.len() > 1 {
            assert(replies.take(1)[0] == replies[0]);
        }
    }
}

/// The commands are told apart by their first word.
proof fn lemma_words()
    ensures
        "worktree"@ != "branch"@,
        "worktree"@ != "reset"@,
        "worktree"@ != "show-ref"@,
        "branch"@ != "reset"@,
        "branch"@ != "show-ref"@,
        "rev-parse"@ != "branch"@,
        "rev-parse"@ != "reset"@,
        "rev-parse"@ != "worktree"@,
        "status"@ != "branch"@,
        "status"@ != "worktree"@,
        "add"@ != "remove"@,
        "add"@ != "list"@,
        "soft"@ != "mixed"@,
        "--"@ + "soft"@ != "--"@ + "mixed"@,
{
    reveal_strlit("worktree");
    reveal_strlit("branch");
    reveal_strlit("reset");
    reveal_strlit("show-ref");
    reveal_strlit("rev-parse");
    reveal_strlit("status");
    reveal_strlit("add");
    reveal_strlit("list");
    reveal_strlit("remove");
    reveal_strlit("soft");
    reveal_strlit("mixed");
    reveal_strlit("--");
    assert("worktree"@.len() == 8 && "branch"@.len() == 6 && "reset"@.len() == 5);
    assert("show-ref"@.len() == 8 && "show-ref"@[0] == 's' && "worktree"@[0] == 'w');
    assert("rev-parse"@.len() == 9 && "status"@.len() == 6 && "status"@[0] == 's');
    assert("branch"@[0] == 'b');
    assert("add"@.len() == 3 && "remove"@.len() == 6 && "list"@.len() == 4);
    assert(("--"@ + "soft"@).len() == 6 && ("--"@ + "mixed"@).len() == 7);
    assert("soft"@.len() == 4 && "mixed"@.len() == 5);
}

/// Removing a worktree that is not there fails and changes nothing. One that is removed
/// is gone, whatever was in it, and is no longer listed; the branches stay; and removing
/// it once more finds nothing.
pub proof fn law_removed_worktrees_are_gone(
    facts: Facts,
    repo: Seq<char>,
    name: Seq<char>,
    states: Seq<Repository>,
    replies: Seq<ReplyView>,
    later: Seq<Repository>,
    again: Seq<ReplyView>,
)
    requires
        runs(facts, removal(repo, name), states, replies),
        is_over(removal(repo, name)(replies)),
        runs(facts, removal(repo, name), later, again),
        is_over(removal(repo, name)(again)),
        later[0] == states.last(),
    ensures
        ({
            let path = worktree_path_of(repo, name);
            let missing = |f: FlowView<(), DomainErrorView>|
                f matches Err(HaltView::Fail(e, _)) && e == DomainErrorView::WorktreeNotFound(name);
            &&& !states[0].there.contains(path) ==> missing(removal(repo, name)(replies))
                && states.last() == states[0]
            &&& removal(repo, name)(replies) is Ok ==> {
                &&& states[0].there.contains(path)
                &&& states.last().there == states[0].there.remove(path)
                &&& states.last().worktrees == states[0].worktrees.filter(
                    |w: WorktreeView| w.path != path,
                )
                &&& states.last().branches == states[0].branches
                &&& missing(removal(repo, name)(again))
                &&& later.last() == later[0]
            }
        }),
{
    lemma_removal(facts, repo, name, states, replies);
    lemma_removal(facts, repo, name, later, again);
}

/// What a removal comes to.
proof fn lemma_removal(
    facts: Facts,
    repo: Seq<char>,
    name: Seq<char>,
    states: Seq<Repository>,
    replies: Seq<ReplyView>,
)
    requires
        runs(facts, removal(repo, name), states, replies),
        is_over(removal(repo, name)(replies)),
    ensures
        ({
            let path = worktree_path_of(repo, name);
            if states[0].there.contains(path) {
                removal(repo, name)(replies) is Ok ==> states.last() == effect(
                    facts,
                    states[0],
                    repo,
                    seq!["worktree"@, "remove"@, "--force"@, path],
                )
            } else {
                &&& removal(repo, name)(replies) matches Err(HaltView::Fail(e, _)) && e
                    == DomainErrorView::WorktreeNotFound(name)
                &&& states.last() == states[0]
            }
        }),
        removal(repo, name)(replies) is Ok ==> {
            let path = worktree_path_of(repo, name);
            let s = states[0];
            &&& s.there.contains(path)
            &&& states.last().worktrees == s.worktrees.filter(|w: WorktreeView| w.path != path)
            &&& states.last().there == s.there.remove(path)
            &&& states.last().branches == s.branches
        },
{
    let path = worktree_path_of(repo, name);
    let args = seq!["worktree"@, "remove"@, "--force"@, path];
    assert(args.len() == 4 && args[0] == "worktree"@ && args[1] == "remove"@ && args[3] == path);
    lemma_words();
    assert(replies.take(0).len() == 0);
    assert(replies.len() > 0);
    assert(states[1] == states[0]);
    if replies.len() > 1 {
        assert(replies.take(1)[0] == replies[0]);
    }
    if replies.len() > 2 {
        assert(replies.take(2)[0] == replies[0] && replies.take(2)[1] == replies[1]);
    }
}

/// Making a worktree, as a function of the replies.
pub open spec fn making(
    repo: Seq<char>,
    name: Seq<char>,
    branch: Seq<char>,
    base: Option<Seq<char>>,
    allow_dirty: bool,
) -> spec_fn(Seq<ReplyView>) -> FlowView<Seq<char>, DomainErrorView> {
    |r: Seq<ReplyView>| worktree_add_impl_flow(repo, name, branch, base, allow_dirty, r, 0)
}

/// The repository with a new branch at the base, or else at the head.
pub open spec fn branched(
    facts: Facts,
    s: Repository,
    repo: Seq<char>,
    branch: Seq<char>,
    base: Option<Seq<char>>,
) -> Repository {
    let tip = match base {
        Some(b) => (facts.named)(s, repo, b),
        None => s.heads[repo],
    };
    Repository { branches: s.branches.insert(branch, tip), ..s }
}

/// The checks before a branch is made find that neither the worktree nor the branch is
/// there, and change nothing.
proof fn lemma_checked(
    facts: Facts,
    repo: Seq<char>,
    name: Seq<char>,
    branch: Seq<char>,
    base: Option<Seq<char>>,
    allow_dirty: bool,
    states: Seq<Repository>,
    replies: Seq<ReplyView>,
)
    requires
        runs(facts, making(repo, name, branch, base, allow_dirty), states, replies),
        making(repo, name, branch, base, allow_dirty)(replies) is Ok,
    ensures
        home_flow(repo, replies, 0) matches Ok((home, m)) && {
            let path = worktree_path_of(home, name);
            &&& is_absolute(home)
            &&& m + 2 <= replies.len()
            &&& states[m as int + 2] == states[0]
            &&& replies[m as int] == ReplyView::Flag(false)
            &&& replies[m as int + 1] matches ReplyView::Output(o) && !succeeded(o)
            &&& !states[0].there.contains(path)
            &&& !states[0].branches.contains_key(branch)
        },
{
    let (home, m) = home_flow(repo, replies, 0)->Ok_0;
    let k = m as int;
    let args = seq!["show-ref"@, "--verify"@, "--quiet"@, "refs/heads/"@ + branch];
    assert(args.len() == 4 && args[0] == "show-ref"@ && args[3] == "refs/heads/"@ + branch);
    lemma_words();
    assert(begins_with(args[3], "refs/heads/"@) && args[3].skip("refs/heads/"@.len() as int)
        == branch) by {
        let n = "refs/heads/"@.len() as int;
        assert(args[3].subrange(0, n) =~= "refs/heads/"@);
        assert(args[3].skip(n) =~= branch);
    }
    if !is_rooted(repo) {
        assert(replies.take(0).len() == 0);
        assert(states[1] == states[0]);
    }
    assert(home_flow(repo, replies.take(k), 0) == home_flow(repo, replies, 0));
    assert(states[k + 1] == states[k]);
    assert(home_flow(repo, replies.take(k + 1), 0) == home_flow(repo, replies, 0));
    assert(replies.take(k + 1)[k] == replies[k]);
}

/// Making the branch and the worktree, once the checks are done.
spec fn tail_flow(
    repo: Seq<char>,
    path: Seq<char>,
    branch: Seq<char>,
    base: Option<Seq<char>>,
    allow_dirty: bool,
    replies: Seq<ReplyView>,
    at: nat,
) -> FlowView<Seq<char>, DomainErrorView> {
    match base_branch_flow(repo, branch, base, allow_dirty, replies, at) {
        Ok((_, n)) => match git_text(repo, seq!["worktree"@, "add"@, path, branch], replies, n) {
            Ok((_, n)) => Ok((path, n)),
            Err(h) => Err(h),
        },
        Err(h) => Err(h),
    }
}

/// Making the branch and the worktree.
proof fn lemma_tail(
    facts: Facts,
    repo: Seq<char>,
    path: Seq<char>,
    branch: Seq<char>,
    base: Option<Seq<char>>,
    allow_dirty: bool,
    states: Seq<Repository>,
    replies: Seq<ReplyView>,
    q: nat,
)
    requires
        !begins_with(branch, "-"@),
        q <= replies.len(),
        states.len() == replies.len() + 1,
        forall|i: int|
            q <= i < replies.len() ==> (tail_flow(
                repo,
                path,
                branch,
                base,
                allow_dirty,
                #[trigger] replies.take(i),
                q,
            ) matches Err(HaltView::Ask(a)) && goes(
                facts,
                states[i],
                a,
                replies[i],
                states[i + 1],
            )),
        tail_flow(repo, path, branch, base, allow_dirty, replies, q) is Ok,
    ensures
        tail_flow(repo, path, branch, base, allow_dirty, replies, q) matches Ok((p, _)) && p
            == path,
        states.last() == effect(
            facts,
            branched(facts, states[q as int], repo, branch, base),
            repo,
            seq!["worktree"@, "add"@, path, branch],
        ),
{
    lemma_words();
    let at = q as int;
    let s = states[at];
    let list = seq!["worktree"@, "list"@, "--porcelain"@];
    let status = seq!["status"@, "--porcelain"@];
    let last = seq!["worktree"@, "add"@, path, branch];
    assert(list.len() == 3 && list[0] == "worktree"@);
    assert(status.len() == 2 && status[0] == "status"@);
    assert(last.len() == 4 && last[0] == "worktree"@ && last[1] == "add"@ && last[2] == path
        && last[3] == branch);
    assert("-d"@ != branch) by {
        reveal_strlit("-d");
        reveal_strlit("-");
        if branch == "-d"@ {
            assert(branch.subrange(0, 1) =~= "-"@);
        }
    }
    let (_, n) = base_branch_flow(repo, branch, base, allow_dirty, replies, q)->Ok_0;
    let k = n as int - 1;
    // The command that makes the branch is at `k`, and the checks before it change nothing.
    match base {
        None => {
            let make = seq!["branch"@, branch];
            assert(make.len() == 2 && make[0] == "branch"@ && make[1] == branch);
            assert(states[k + 1] == branched(facts, s, repo, branch, base));
        },
        Some(b) => {
            let make = seq!["branch"@, branch, b];
            assert(make.len() == 3 && make[0] == "branch"@ && make[1] == branch && make[2] == b);
            if !allow_dirty {
                assert(replies.take(at).len() == q);
                assert(states[at + 1] == s);
                assert(replies.take(at + 1)[at] == replies[at]);
                if k > at + 1 {
                    assert(states[at + 2] == s);
                    assert(replies.take(at + 2)[at] == replies[at]);
                    assert(replies.take(at + 2)[at + 1] == replies[at + 1]);
                }
            }
            assert(states[k] == s);
            assert(clean_base_flow(repo, b, replies.take(k), q) == clean_base_flow(
                repo,
                b,
                replies,
                q,
            ) || allow_dirty);
            assert(states[k + 1] == branched(facts, s, repo, branch, base));
        },
    }
    assert(base_branch_flow(repo, branch, base, allow_dirty, replies.take(k + 1), q)
        == base_branch_flow(repo, branch, base, allow_dirty, replies, q));
    assert(states[k + 2] == effect(facts, states[k + 1], repo, last));
    if replies.len() > k + 2 {
        assert(base_branch_flow(repo, branch, base, allow_dirty, replies.take(k + 2), q)
            == base_branch_flow(repo, branch, base, allow_dirty, replies, q));
        assert(replies.take(k + 2)[k + 1] == replies[k + 1]);
    }
}

/// A worktree that is made is at its path under the absolute path of the repository,
/// where nothing was, and is listed behind those that were there, with its branch and
/// nothing else new. The branch is new and starts at the base, or else at the head of
/// the repository; every other branch stays as it is.
pub proof fn law_made_worktrees_are_there(
    facts: Facts,
    repo: Seq<char>,
    name: Seq<char>,
    branch: Seq<char>,
    base: Option<Seq<char>>,
    allow_dirty: bool,
    states: Seq<Repository>,
    replies: Seq<ReplyView>,
    path: Seq<char>,
    n: nat,
)
    requires
        !begins_with(branch, "-"@),
        runs(facts, making(repo, name, branch, base, allow_dirty), states, replies),
        making(repo, name, branch, base, allow_dirty)(replies) == Ok::<
            _,
            HaltView<DomainErrorView>,
        >((path, n)),
    ensures
        ({
            let (before, after) = (states[0], states.last());
            &&& path == worktree_path_of(
                if is_rooted(repo) {
                    repo
                } else {
                    (facts.absolute)(repo)
                },
                name,
            )
            &&& is_absolute(path)
            &&& !before.there.contains(path)
            &&& after.there == before.there.insert(path)
            &&& after.worktrees == before.worktrees.push(
                WorktreeView { path, branch: Some(branch), is_bare: false },
            )
            &&& !before.branches.contains_key(branch)
            &&& after.branches == before.branches.insert(
                branch,
                match base {
                    Some(b) => (facts.named)(before, repo, b),
                    None => before.heads[repo],
                },
            )
        }),
{
    lemma_words();
    lemma_checked(facts, repo, name, branch, base, allow_dirty, states, replies);
    let (home, m) = home_flow(repo, replies, 0)->Ok_0;
    let place = worktree_path_of(home, name);
    let q = m + 2;
    if !is_rooted(repo) {
        assert(replies.take(0).len() == 0);
    }
    lemma_worktree_path_is_absolute(home, name);
    assert forall|i: int| q <= i <= replies.len() implies making(
        repo,
        name,
        branch,
        base,
        allow_dirty,
    )(#[trigger] replies.take(i)) == tail_flow(
        repo,
        place,
        branch,
        base,
        allow_dirty,
        replies.take(i),
        q,
    ) by {
        let r = replies.take(i);
        assert(r[m as int] == replies[m as int] && r[m as int + 1] == replies[m as int + 1]);
        assert(home_flow(repo, r, 0) == home_flow(repo, replies, 0));
    }
    assert(replies.take(replies.len() as int) =~= replies);
    lemma_tail(facts, repo, place, branch, base, allow_dirty, states, replies, q);
    let last = seq!["worktree"@, "add"@, place, branch];
    assert(last.len() == 4 && last[0] == "worktree"@ && last[1] == "add"@ && last[2] == place
        && last[3] == branch);
}

/// Whether a text has anything in it but white space.
pub open spec fn says_something(text: Seq<char>) -> bool {
    exists|i: int| 0 <= i < text.len() && !is_space(#[trigger] text[i])
}

/// A text that says nothing is trimmed to nothing, and one that says something is not.
proof fn lemma_says(text: Seq<char>)
    ensures
        trimmed(text).len() > 0 <==> says_something(text),
        trimmed(trimmed(text)).len() > 0 <==> says_something(text),
{
    lemma_says_once(text);
    lemma_says_once(trimmed(text));
    if trimmed(text).len() > 0 {
        lemma_ends(text);
    }
}

/// A trimmed text does not begin with white space.
proof fn lemma_ends(text: Seq<char>)
    requires
        trimmed(text).len() > 0,
    ensures
        says_something(trimmed(text)),
{
    let start = trimmed_start(text);
    lemma_trimmed_end(start);
    let core = trimmed(text);
    assert(!is_space(core[core.len() - 1]));
}

/// What is left of a text without the white space at its end ends with none.
proof fn lemma_trimmed_end(s: Seq<char>)
    ensures
        trimmed_end(s).len() > 0 <==> says_something(s),
        trimmed_end(s).len() > 0 ==> !is_space(trimmed_end(s).last()),
    decreases s.len(),
{
    if s.len() > 0 {
        if is_space(s.last()) {
            let t = s.drop_last();
            lemma_trimmed_end(t);
            if says_something(s) {
                let i = choose|i: int| 0 <= i < s.len() && !is_space(#[trigger] s[i]);
                assert(t[i] == s[i]);
            }
            if says_something(t) {
                let i = choose|i: int| 0 <= i < t.len() && !is_space(#[trigger] t[i]);
                assert(t[i] == s[i]);
            }
        } else {
            assert(!is_space(s[s.len() - 1]));
        }
    }
}

/// A text that says nothing is trimmed to nothing, and one that says something is not.
proof fn lemma_says_once(text: Seq<char>)
    ensures
        trimmed(text).len() > 0 <==> says_something(text),
    decreases text.len(),
{
    if text.len() > 0 && is_space(text[0]) {
        let rest = text.drop_first();
        lemma_says_once(rest);
        if says_something(text) {
            let i = choose|i: int| 0 <= i < text.len() && !is_space(#[trigger] text[i]);
            assert(rest[i - 1] == text[i]);
        }
        if says_something(rest) {
            let i = choose|i: int| 0 <= i < rest.len() && !is_space(#[trigger] rest[i]);
            assert(rest[i] == text[i + 1]);
        }
    } else {
        lemma_trimmed_end(text);
    }
}

/// The index of the first worktree with a branch is found.
proof fn lemma_checked_out(worktrees: Seq<WorktreeView>, branch: Seq<char>, k: int)
    requires
        0 <= k < worktrees.len(),
        worktrees[k].branch == Some(branch),
        forall|j: int| 0 <= j < k ==> #[trigger] worktrees[j].branch != Some(branch),
    ensures
        checked_out_at(worktrees, branch) == k,
    decreases k,
{
    if k > 0 {
        assert(worktrees[0].branch != Some(branch));
        let rest = worktrees.drop_first();
        assert forall|j: int| 0 <= j < k - 1 implies #[trigger] rest[j].branch != Some(branch) by {
            assert(rest[j] == worktrees[j + 1]);
        }
        lemma_checked_out(rest, branch, k - 1);
    }
}

/// Whether the replies from `at` on come from a repository that goes through `states`
/// while a worktree is made, and the making has come to its end.
spec fn made_in(
    facts: Facts,
    repo: Seq<char>,
    name: Seq<char>,
    branch: Seq<char>,
    base: Option<Seq<char>>,
    allow_dirty: bool,
    states: Seq<Repository>,
    replies: Seq<ReplyView>,
    at: nat,
) -> bool {
    &&& at <= replies.len()
    &&& states.len() == replies.len() + 1
    &&& forall|i: int|
        at <= i < replies.len() ==> (worktree_add_impl_flow(
            repo,
            name,
            branch,
            base,
            allow_dirty,
            #[trigger] replies.take(i),
            at,
        ) matches Err(HaltView::Ask(a)) && goes(facts, states[i], a, replies[i], states[i + 1]))
    &&& is_over(worktree_add_impl_flow(repo, name, branch, base, allow_dirty, replies, at))
}

/// Where nothing is at the path, the branch is asked for.
proof fn lemma_branch_checked(
    facts: Facts,
    repo: Seq<char>,
    name: Seq<char>,
    branch: Seq<char>,
    base: Option<Seq<char>>,
    allow_dirty: bool,
    states: Seq<Repository>,
    replies: Seq<ReplyView>,
    at: nat,
)
    requires
        made_in(facts, repo, name, branch, base, allow_dirty, states, replies, at),
        home_flow(repo, replies, at) matches Ok((_, m)) && m < replies.len() && states[m as int + 1]
            == states[at as int] && replies[m as int] == ReplyView::Flag(false),
    ensures
        ({
            let f = worktree_add_impl_flow(repo, name, branch, base, allow_dirty, replies, at);
            let m = home_flow(repo, replies, at)->Ok_0.1;
            let s = states[at as int];
            if s.branches.contains_key(branch) {
                f is Err && states.last() == s
            } else {
                &&& m + 2 <= replies.len()
                &&& states[m as int + 2] == s
                &&& replies[m as int + 1] matches ReplyView::Output(o) && !succeeded(o)
            }
        }),
{
    let f = |r: Seq<ReplyView>|
        worktree_add_impl_flow(repo, name, branch, base, allow_dirty, r, at);
    let args = seq!["show-ref"@, "--verify"@, "--quiet"@, "refs/heads/"@ + branch];
    assert(args.len() == 4 && args[0] == "show-ref"@ && args[3] == "refs/heads/"@ + branch);
    lemma_words();
    assert(begins_with(args[3], "refs/heads/"@) && args[3].skip("refs/heads/"@.len() as int)
        == branch) by {
        let n = "refs/heads/"@.len() as int;
        assert(args[3].subrange(0, n) =~= "refs/heads/"@);
        assert(args[3].skip(n) =~= branch);
    }
    let m = home_flow(repo, replies, at)->Ok_0.1;
    let k = m as int;
    assert(replies.len() > k + 1) by {
        assert(replies.len() == k + 1 ==> f(replies) matches Err(HaltView::Ask(_)));
    }
    let r = replies.take(k + 1);
    assert(home_flow(repo, r, at) == home_flow(repo, replies, at)) by {
        assert(k > at ==> r[at as int] == replies[at as int]);
    }
    assert(r[k] == replies[k]);
    assert(f(r) matches Err(HaltView::Ask(a)) && a == ActionView::Git { dir: repo, args });
    assert(states[k + 2] == states[at as int]);
    if states[at as int].branches.contains_key(branch) && replies.len() > k + 2 {
        let r = replies.take(k + 2);
        assert(home_flow(repo, r, at) == home_flow(repo, replies, at)) by {
            assert(k > at ==> r[at as int] == replies[at as int]);
        }
        assert(r[k] == replies[k] && r[k + 1] == replies[k + 1]);
    }
}

/// The checks before a branch is made: they change nothing, and the call is over with an
/// error where the worktree or the branch is there.
proof fn lemma_prechecked(
    facts: Facts,
    repo: Seq<char>,
    name: Seq<char>,
    branch: Seq<char>,
    base: Option<Seq<char>>,
    allow_dirty: bool,
    states: Seq<Repository>,
    replies: Seq<ReplyView>,
    at: nat,
)
    requires
        made_in(facts, repo, name, branch, base, allow_dirty, states, replies, at),
    ensures
        ({
            let f = worktree_add_impl_flow(repo, name, branch, base, allow_dirty, replies, at);
            let s = states[at as int];
            match home_flow(repo, replies, at) {
                Ok((home, m)) => if s.there.contains(worktree_path_of(home, name))
                    || s.branches.contains_key(branch) {
                    f is Err && states.last() == s
                } else {
                    &&& m + 2 <= replies.len()
                    &&& states[m as int + 2] == s
                    &&& replies[m as int] == ReplyView::Flag(false)
                    &&& replies[m as int + 1] matches ReplyView::Output(o) && !succeeded(o)
                },
                Err(_) => f is Err && states.last() == s,
            }
        }),
{
    let f = |r: Seq<ReplyView>|
        worktree_add_impl_flow(repo, name, branch, base, allow_dirty, r, at);
    let i = at as int;
    let s = states[i];
    assert(replies.take(i).len() == at);
    assert(replies.len() > i) by {
        assert(replies.len() == i ==> f(replies) matches Err(HaltView::Ask(_)));
    }
    if !is_rooted(repo) {
        assert(states[i + 1] == s);
        if replies.len() > i + 1 {
            assert(replies.take(i + 1)[i] == replies[i]);
        }
    }
    if let Ok((home, m)) = home_flow(repo, replies, at) {
        let k = m as int;
        assert(replies.len() > k) by {
            assert(replies.len() == k ==> f(replies) matches Err(HaltView::Ask(_)));
        }
        assert(home_flow(repo, replies.take(k), at) == home_flow(repo, replies, at));
        assert(states[k + 1] == s);
        if !s.there.contains(worktree_path_of(home, name)) {
            assert(replies[k] == ReplyView::Flag(false));
            lemma_branch_checked(facts, repo, name, branch, base, allow_dirty, states, replies, at);
        } else if replies.len() > k + 1 {
            assert(home_flow(repo, replies.take(k + 1), at) == home_flow(repo, replies, at));
            assert(replies.take(k + 1)[k] == replies[k]);
        }
    }
}

/// Where the base has changes, no branch is made.
proof fn lemma_dirty_tail(
    facts: Facts,
    repo: Seq<char>,
    path: Seq<char>,
    branch: Seq<char>,
    base: Seq<char>,
    states: Seq<Repository>,
    replies: Seq<ReplyView>,
    q: nat,
    k: int,
)
    requires
        q <= replies.len(),
        states.len() == replies.len() + 1,
        forall|i: int|
            q <= i < replies.len() ==> (tail_flow(
                repo,
                path,
                branch,
                Some(base),
                false,
                #[trigger] replies.take(i),
                q,
            ) matches Err(HaltView::Ask(a)) && goes(
                facts,
                states[i],
                a,
                replies[i],
                states[i + 1],
            )),
        is_over(tail_flow(repo, path, branch, Some(base), false, replies, q)),
        0 <= k < states[q as int].worktrees.len(),
        states[q as int].worktrees[k].branch == Some(base),
        forall|j: int|
            0 <= j < k ==> #[trigger] states[q as int].worktrees[j].branch != Some(base),
        says_something(states[q as int].changes[states[q as int].worktrees[k].path]),
    ensures
        tail_flow(repo, path, branch, Some(base), false, replies, q) == Err::<
            (Seq<char>, nat),
            _,
        >(
            HaltView::Fail(
                DomainErrorView::Git(
                    "base_branch has uncommitted changes: "@ + base + " at "@
                        + states[q as int].worktrees[k].path,
                ),
                q + 2,
            ),
        ),
        states.last() == states[q as int],
{
    lemma_words();
    let at = q as int;
    let s = states[at];
    let dir = s.worktrees[k].path;
    lemma_checked_out(s.worktrees, base, k);
    lemma_says(s.changes[dir]);
    let list = seq!["worktree"@, "list"@, "--porcelain"@];
    let status = seq!["status"@, "--porcelain"@];
    assert(list.len() == 3 && list[0] == "worktree"@);
    assert(status.len() == 2 && status[0] == "status"@);
    assert(replies.len() > at);
    assert(replies.take(at).len() == q);
    assert(states[at + 1] == s);
    assert(replies.len() > at + 1);
    assert(replies.take(at + 1)[at] == replies[at]);
    assert(states[at + 2] == s);
    if replies.len() > at + 2 {
        assert(replies.take(at + 2)[at] == replies[at]);
        assert(replies.take(at + 2)[at + 1] == replies[at + 1]);
    }
}

/// Where the base has changes at the first worktree that has it checked out, the making
/// fails and changes nothing.
proof fn lemma_dirty(
    facts: Facts,
    repo: Seq<char>,
    name: Seq<char>,
    branch: Seq<char>,
    base: Seq<char>,
    states: Seq<Repository>,
    replies: Seq<ReplyView>,
    at: nat,
    k: int,
)
    requires
        made_in(facts, repo, name, branch, Some(base), false, states, replies, at),
        0 <= k < states[at as int].worktrees.len(),
        states[at as int].worktrees[k].branch == Some(base),
        forall|j: int|
            0 <= j < k ==> #[trigger] states[at as int].worktrees[j].branch != Some(base),
        says_something(states[at as int].changes[states[at as int].worktrees[k].path]),
    ensures
        ({
            let f = worktree_add_impl_flow(repo, name, branch, Some(base), false, replies, at);
            let s = states[at as int];
            &&& f is Err && states.last() == s
            &&& (home_flow(repo, replies, at) matches Ok((home, _)) && !s.there.contains(
                worktree_path_of(home, name),
            )) && !s.branches.contains_key(branch) ==> (f matches Err(HaltView::Fail(e, _)) && e
                == DomainErrorView::Git(
                "base_branch has uncommitted changes: "@ + base + " at "@ + s.worktrees[k].path,
            ))
        }),
{
    lemma_prechecked(facts, repo, name, branch, Some(base), false, states, replies, at);
    let s = states[at as int];
    if let Ok((home, m)) = home_flow(repo, replies, at) {
        let place = worktree_path_of(home, name);
        if !s.there.contains(place) && !s.branches.contains_key(branch) {
            let q = m + 2;
            assert forall|i: int| q <= i <= replies.len() implies worktree_add_impl_flow(
                repo,
                name,
                branch,
                Some(base),
                false,
                #[trigger] replies.take(i),
                at,
            ) == tail_flow(repo, place, branch, Some(base), false, replies.take(i), q) by {
                let r = replies.take(i);
                assert(r[m as int] == replies[m as int] && r[m as int + 1] == replies[m as int
                    + 1]);
                assert(m > at ==> r[at as int] == replies[at as int]);
                assert(home_flow(repo, r, at) == home_flow(repo, replies, at));
            }
            assert(replies.take(replies.len() as int) =~= replies);
            lemma_dirty_tail(facts, repo, place, branch, base, states, replies, q, k);
        }
    }
}

/// Adding a worktree with the waiver read from the environment, as a function of the
/// replies.
pub open spec fn adding(
    repo: Seq<char>,
    name: Seq<char>,
    branch: Seq<char>,
    base: Option<Seq<char>>,
) -> spec_fn(Seq<ReplyView>) -> FlowView<Seq<char>, DomainErrorView> {
    |r: Seq<ReplyView>| worktree_add_flow(repo, name, branch, base, r, 0)
}

/// A base branch that has changes where it is first checked out, in the main working
/// directory as in any other, is refused unless the variable waives the check: nothing is
/// made, and where neither the worktree nor the branch was there, the client is told of
/// the changes and where they are.
pub proof fn law_dirty_bases_are_refused(
    facts: Facts,
    repo: Seq<char>,
    name: Seq<char>,
    branch: Seq<char>,
    base: Seq<char>,
    states: Seq<Repository>,
    replies: Seq<ReplyView>,
    value: Option<Seq<char>>,
    k: int,
)
    requires
        runs(facts, adding(repo, name, branch, Some(base)), states, replies),
        is_over(adding(repo, name, branch, Some(base))(replies)),
        replies[0] == ReplyView::Variable(value),
        0 <= k < states[0].worktrees.len(),
        states[0].worktrees[k].branch == Some(base),
        forall|j: int| 0 <= j < k ==> #[trigger] states[0].worktrees[j].branch != Some(base),
    ensures
        ({
            let f = adding(repo, name, branch, Some(base))(replies);
            let at = states[0].worktrees[k].path;
            let dirty = says_something(states[0].changes[at]);
            let waived = value == Some("1"@) || value == Some("true"@) || value == Some("yes"@);
            &&& f is Ok ==> waived || !dirty
            &&& dirty && !waived ==> {
                &&& f is Err
                &&& states.last() == states[0]
                &&& (home_flow(repo, replies, 1) matches Ok((home, _)) && !states[0].there.contains(
                    worktree_path_of(home, name),
                )) && !states[0].branches.contains_key(branch) ==> (f matches Err(
                    HaltView::Fail(e, _),
                ) && e == DomainErrorView::Git(
                    "base_branch has uncommitted changes: "@ + base + " at "@ + at,
                ))
            }
        }),
{
    let f = adding(repo, name, branch, Some(base));
    let dirty = says_something(states[0].changes[states[0].worktrees[k].path]);
    if dirty && !waives(value) {
        assert(replies.take(0).len() == 0);
        assert(replies.len() > 0) by {
            assert(replies.len() == 0 ==> f(replies) matches Err(HaltView::Ask(_)));
        }
        assert(states[1] == states[0]);
        assert forall|i: int| 1 <= i < replies.len() implies (worktree_add_impl_flow(
            repo,
            name,
            branch,
            Some(base),
            false,
            #[trigger] replies.take(i),
            1,
        ) matches Err(HaltView::Ask(a)) && goes(
            facts,
            states[i],
            a,
            replies[i],
            states[i + 1],
        )) by {
            assert(replies.take(i)[0] == replies[0]);
            assert(f(replies.take(i)) matches Err(HaltView::Ask(_)));
        }
        lemma_dirty(facts, repo, name, branch, base, states, replies, 1, k);
    }
}

/// The same of an addition whose caller says whether the check is waived.
pub proof fn law_dirty_bases_are_refused_unless_allowed(
    facts: Facts,
    repo: Seq<char>,
    name: Seq<char>,
    branch: Seq<char>,
    base: Seq<char>,
    allow_dirty: bool,
    states: Seq<Repository>,
    replies: Seq<ReplyView>,
    k: int,
)
    requires
        runs(facts, making(repo, name, branch, Some(base), allow_dirty), states, replies),
        is_over(making(repo, name, branch, Some(base), allow_dirty)(replies)),
        0 <= k < states[0].worktrees.len(),
        states[0].worktrees[k].branch == Some(base),
        forall|j: int| 0 <= j < k ==> #[trigger] states[0].worktrees[j].branch != Some(base),
    ensures
        ({
            let f = making(repo, name, branch, Some(base), allow_dirty)(replies);
            let dirty = says_something(states[0].changes[states[0].worktrees[k].path]);
            &&& f is Ok ==> allow_dirty || !dirty
            &&& dirty && !allow_dirty ==> f is Err && states.last() == states[0]
        }),
{
    if says_something(states[0].changes[states[0].worktrees[k].path]) && !allow_dirty {
        assert forall|i: int| 0 <= i < replies.len() implies (worktree_add_impl_flow(
            repo,
            name,
            branch,
            Some(base),
            false,
            #[trigger] replies.take(i),
            0,
        ) matches Err(HaltView::Ask(a)) && goes(
            facts,
            states[i],
            a,
            replies[i],
            states[i + 1],
        )) by {
            assert(making(repo, name, branch, Some(base), false)(replies.take(i)) matches Err(
                HaltView::Ask(_),
            ));
        }
        lemma_dirty(facts, repo, name, branch, base, states, replies, 0, k);
    }
}

// ---------------------------------------------------------------------------
// Branches
// ---------------------------------------------------------------------------

/// Deleting a branch, as a function of the replies.
pub open spec fn deletion(
    repo: Seq<char>,
    branch: Seq<char>,
    working_dir: Option<Seq<char>>,
) -> spec_fn(Seq<ReplyView>) -> FlowView<(), DomainErrorView> {
    |r: Seq<ReplyView>| branch_delete_flow(repo, branch, working_dir, r, 0)
}

/// Whether a directory is one of the worktrees.
pub open spec fn is_worktree(facts: Facts, s: Repository, dir: Seq<char>) -> bool {
    exists|i: int|
        0 <= i < s.worktrees.len() && (facts.resolved)(#[trigger] s.worktrees[i].path) == (
        facts.resolved)(dir)
}

/// What looking for a directory among the worktrees finds.
proof fn lemma_among(
    facts: Facts,
    worktrees: Seq<WorktreeView>,
    target: Seq<char>,
    states: Seq<Repository>,
    replies: Seq<ReplyView>,
    at: nat,
)
    requires
        at <= replies.len(),
        states.len() == replies.len() + 1,
        forall|i: int|
            at <= i < replies.len() && among_flow(
                worktrees,
                target,
                #[trigger] replies.take(i),
                at,
            ) is Err ==> (among_flow(worktrees, target, replies.take(i), at) matches Err(
                HaltView::Ask(a),
            ) && goes(facts, states[i], a, replies[i], states[i + 1])),
    ensures
        match among_flow(worktrees, target, replies, at) {
            Ok((known, n)) => {
                &&& at <= n <= replies.len()
                &&& states[n as int] == states[at as int]
                &&& known == exists|i: int|
                    0 <= i < worktrees.len() && (facts.resolved)(#[trigger] worktrees[i].path)
                        == target
                &&& forall|i: int|
                    n <= i <= replies.len() ==> among_flow(
                        worktrees,
                        target,
                        #[trigger] replies.take(i),
                        at,
                    ) == among_flow(worktrees, target, replies, at)
            },
            Err(h) => h is Ask && states.last() == states[at as int],
        },
    decreases worktrees.len(),
{
    if worktrees.len() > 0 {
        let k = at as int;
        if at < replies.len() {
            assert(replies.take(k).len() == at);
            assert(among_flow(worktrees, target, replies.take(k), at) is Err);
            let found = (facts.resolved)(worktrees[0].path);
            assert(replies[k] == ReplyView::Path(found));
            let rest = worktrees.drop_first();
            if found == target {
                assert forall|i: int| at + 1 <= i <= replies.len() implies among_flow(
                    worktrees,
                    target,
                    #[trigger] replies.take(i),
                    at,
                ) == among_flow(worktrees, target, replies, at) by {
                    assert(replies.take(i)[k] == replies[k]);
                }
            } else {
                assert forall|i: int| at + 1 <= i <= replies.len() implies among_flow(
                    worktrees,
                    target,
                    #[trigger] replies.take(i),
                    at,
                ) == among_flow(rest, target, replies.take(i), at + 1) by {
                    assert(replies.take(i)[k] == replies[k]);
                }
                lemma_among(facts, rest, target, states, replies, at + 1);
                assert(replies.take(replies.len() as int) =~= replies);
                assert forall|i: int| 0 <= i < rest.len() implies rest[i] == #[trigger] worktrees[i
                    + 1] by {
                }
                if exists|i: int|
                    0 <= i < worktrees.len() && (facts.resolved)(#[trigger] worktrees[i].path)
                        == target {
                    let i = choose|i: int|
                        0 <= i < worktrees.len() && (facts.resolved)(#[trigger] worktrees[i].path)
                            == target;
                    assert(rest[i - 1].path == worktrees[i].path);
                }
                if exists|i: int|
                    0 <= i < rest.len() && (facts.resolved)(#[trigger] rest[i].path) == target {
                    let i = choose|i: int|
                        0 <= i < rest.len() && (facts.resolved)(#[trigger] rest[i].path) == target;
                    assert(worktrees[i + 1].path == rest[i].path);
                }
            }
        }
    }
}

/// Deleting a branch in a directory that may be used.
spec fn final_flow(
    dir: Seq<char>,
    branch: Seq<char>,
    replies: Seq<ReplyView>,
    at: nat,
) -> FlowView<(), DomainErrorView> {
    match git_text(dir, seq!["branch"@, "-d"@, branch], replies, at) {
        Ok((_, n)) => Ok(((), n)),
        Err(HaltView::Fail(DomainErrorView::Git(message), n)) => if holds(message, "not found"@) {
            Err(HaltView::Fail(DomainErrorView::BranchNotFound(branch), n))
        } else {
            Err(HaltView::Fail(DomainErrorView::Git(message), n))
        },
        Err(h) => Err(h),
    }
}

/// What git makes of the deletion, once it is asked.
proof fn lemma_final(
    facts: Facts,
    repo: Seq<char>,
    branch: Seq<char>,
    working_dir: Option<Seq<char>>,
    states: Seq<Repository>,
    replies: Seq<ReplyView>,
    at: nat,
)
    requires
        runs(facts, deletion(repo, branch, working_dir), states, replies),
        is_over(deletion(repo, branch, working_dir)(replies)),
        at <= replies.len(),
        states[at as int] == states[0],
        forall|i: int|
            at <= i <= replies.len() ==> deletion(repo, branch, working_dir)(
                #[trigger] replies.take(i),
            ) == final_flow(run_dir_of(repo, working_dir), branch, replies.take(i), at),
    ensures
        deletion(repo, branch, working_dir)(replies) is Ok <==> can_be_deleted(
            facts,
            states[0],
            run_dir_of(repo, working_dir),
            branch,
        ),
        states.last() == if deletion(repo, branch, working_dir)(replies) is Ok {
            Repository { branches: states[0].branches.remove(branch), ..states[0] }
        } else {
            states[0]
        },
{
    let k = at as int;
    let args = seq!["branch"@, "-d"@, branch];
    assert(args.len() == 3 && args[0] == "branch"@ && args[1] == "-d"@ && args[2] == branch);
    lemma_words();
    assert(replies.take(replies.len() as int) =~= replies);
    assert(replies.len() > at);
    assert(replies.take(k).len() == at);
    if replies.len() > at + 1 {
        assert(replies.take(k + 1)[k] == replies[k]);
    }
}

/// What a deletion comes to.
#[verifier::spinoff_prover]
#[verifier::rlimit(40)]
proof fn lemma_deletion(
    facts: Facts,
    repo: Seq<char>,
    branch: Seq<char>,
    working_dir: Option<Seq<char>>,
    states: Seq<Repository>,
    replies: Seq<ReplyView>,
)
    requires
        runs(facts, deletion(repo, branch, working_dir), states, replies),
        is_over(deletion(repo, branch, working_dir)(replies)),
        working_dir matches Some(dir) ==> (facts.is_dir)(dir) && ((facts.resolved)(dir) == (
        facts.resolved)(repo) || is_worktree(facts, states[0], dir)),
    ensures
        deletion(repo, branch, working_dir)(replies) is Ok <==> can_be_deleted(
            facts,
            states[0],
            run_dir_of(repo, working_dir),
            branch,
        ),
        states.last() == if deletion(repo, branch, working_dir)(replies) is Ok {
            Repository { branches: states[0].branches.remove(branch), ..states[0] }
        } else {
            states[0]
        },
{
    let op = deletion(repo, branch, working_dir);
    lemma_words();
    assert(replies.take(replies.len() as int) =~= replies);
    match working_dir {
        None => {
            lemma_final(facts, repo, branch, working_dir, states, replies, 0);
        },
        Some(dir) => {
            let target = (facts.resolved)(dir);
            let list = seq!["worktree"@, "list"@, "--porcelain"@];
            assert(list.len() == 3 && list[0] == "worktree"@);
            assert(replies.take(0).len() == 0);
            assert(replies.len() > 0 && replies[0] == ReplyView::Flag(true));
            assert(replies.len() > 1);
            assert(replies.take(1)[0] == replies[0]);
            assert(replies[1] == ReplyView::Path(target));
            assert(replies.len() > 2);
            assert(replies.take(2)[0] == replies[0] && replies.take(2)[1] == replies[1]);
            assert(replies[2] == ReplyView::Path((facts.resolved)(repo)));
            assert(states[3] == states[0]);
            assert forall|i: int| 3 <= i <= replies.len() implies (#[trigger] replies.take(i))[0]
                == replies[0] && replies.take(i)[1] == replies[1] && replies.take(i)[2]
                == replies[2] by {
            }
            if target == (facts.resolved)(repo) {
                lemma_final(facts, repo, branch, working_dir, states, replies, 3);
            } else {
                assert(replies.len() > 3);
                assert(replies.take(3).len() == 3);
                let worktrees = states[0].worktrees;
                assert(states[4] == states[0]);
                assert forall|i: int| 4 <= i <= replies.len() implies worktree_list_flow(
                    repo,
                    #[trigger] replies.take(i),
                    3,
                ) == Ok::<_, HaltView<DomainErrorView>>((worktrees, 4nat)) by {
                    assert(replies.take(i)[3] == replies[3]);
                }
                assert forall|i: int|
                    4 <= i < replies.len() && among_flow(
                        worktrees,
                        target,
                        #[trigger] replies.take(i),
                        4,
                    ) is Err implies (among_flow(worktrees, target, replies.take(i), 4) matches Err(
                    HaltView::Ask(a),
                ) && goes(facts, states[i], a, replies[i], states[i + 1])) by {
                    assert(worktree_list_flow(repo, replies.take(i), 3) is Ok);
                    assert(op(replies.take(i)) is Err);
                }
                lemma_among(facts, worktrees, target, states, replies, 4);
                assert(worktree_list_flow(repo, replies.take(replies.len() as int), 3) is Ok);
                let (_, n) = among_flow(worktrees, target, replies, 4)->Ok_0;
                assert forall|i: int| n <= i <= replies.len() implies op(#[trigger] replies.take(i))
                    == final_flow(dir, branch, replies.take(i), n) by {
                    assert(worktree_list_flow(repo, replies.take(i), 3) is Ok);
                    assert(among_flow(worktrees, target, replies.take(i), 4) is Ok);
                }
                lemma_final(facts, repo, branch, working_dir, states, replies, n);
            }
        },
    }
}

/// Deleting is never forced, and it goes by what is checked out where it is done. A
/// branch that the worktree `topic` holds and the repository's own working directory
/// does not is not deleted there, and stays as it is; it is deleted in `topic`, and is
/// then gone. A branch that neither holds is deleted in neither.
pub proof fn law_branches_are_deleted_where_they_are_merged(
    facts: Facts,
    repo: Seq<char>,
    branch: Seq<char>,
    topic: Seq<char>,
    states: Seq<Repository>,
    replies: Seq<ReplyView>,
    later: Seq<Repository>,
    again: Seq<ReplyView>,
)
    requires
        (facts.is_dir)(topic),
        is_worktree(facts, states[0], topic),
        runs(facts, deletion(repo, branch, None), states, replies),
        is_over(deletion(repo, branch, None)(replies)),
        runs(facts, deletion(repo, branch, Some(topic)), later, again),
        is_over(deletion(repo, branch, Some(topic))(again)),
        later[0] == states.last(),
        !(facts.holds)(states[0].heads[repo], states[0].branches[branch]),
    ensures
        deletion(repo, branch, None)(replies) is Err,
        states.last() == states[0],
        can_be_deleted(facts, states[0], topic, branch) <==> deletion(
            repo,
            branch,
            Some(topic),
        )(again) is Ok,
        can_be_deleted(facts, states[0], topic, branch) ==> !later.last().branches.contains_key(
            branch,
        ),
        !(facts.holds)(states[0].heads[topic], states[0].branches[branch]) ==> later.last()
            == states[0],
{
    lemma_deletion(facts, repo, branch, None, states, replies);
    lemma_deletion(facts, repo, branch, Some(topic), later, again);
}

// ---------------------------------------------------------------------------
// Resets
// ---------------------------------------------------------------------------

/// Resetting, as a function of the replies.
pub open spec fn resetting(dir: Seq<char>, mode: Seq<char>, target: Seq<char>) -> spec_fn(
    Seq<ReplyView>,
) -> FlowView<ResetResultView, DomainErrorView> {
    |r: Seq<ReplyView>| reset_flow(dir, mode, target, r, 0)
}

/// What a reset comes to.
proof fn lemma_reset(
    facts: Facts,
    dir: Seq<char>,
    mode: Seq<char>,
    target: Seq<char>,
    states: Seq<Repository>,
    replies: Seq<ReplyView>,
    result: ResetResultView,
    n: nat,
)
    requires
        runs(facts, resetting(dir, mode, target), states, replies),
        resetting(dir, mode, target)(replies) == Ok::<_, HaltView<DomainErrorView>>((result, n)),
    ensures
        is_safe_mode(mode),
        result.mode == mode,
        result.previous_head == (facts.short)(states[0].heads[dir]),
        result.new_head == (facts.short)(states.last().heads[dir]),
        states.last() == effect(facts, states[0], dir, seq!["reset"@, "--"@ + mode, target]),
{
    let head = seq!["rev-parse"@, "--short"@, "HEAD"@];
    let reset = seq!["reset"@, "--"@ + mode, target];
    assert(head.len() == 3 && head[0] == "rev-parse"@);
    assert(reset.len() == 3 && reset[0] == "reset"@);
    lemma_words();
    assert(replies.take(0).len() == 0);
    assert(replies.take(1)[0] == replies[0]);
    assert(states[1] == states[0]);
    assert(replies.take(2)[0] == replies[0] && replies.take(2)[1] == replies[1]);
    assert(states[2] == effect(facts, states[0], dir, reset));
    assert(states[3] == states[2]);
    if replies.len() > 3 {
        let r = replies.take(3);
        assert(r[0] == replies[0] && r[1] == replies[1] && r[2] == replies[2]);
    }
}

/// A reset gives the head before and the head after. It changes no file; a soft one
/// leaves what is staged, and a mixed one stages what the target has. A soft reset to
/// the head before brings that head back, where its short name names it.
pub proof fn law_resets_can_be_undone(
    facts: Facts,
    dir: Seq<char>,
    mode: Seq<char>,
    target: Seq<char>,
    states: Seq<Repository>,
    replies: Seq<ReplyView>,
    result: ResetResultView,
    n: nat,
    later: Seq<Repository>,
    again: Seq<ReplyView>,
    undone: ResetResultView,
    m: nat,
)
    requires
        runs(facts, resetting(dir, mode, target), states, replies),
        resetting(dir, mode, target)(replies) == Ok::<_, HaltView<DomainErrorView>>((result, n)),
        runs(facts, resetting(dir, "soft"@, result.previous_head), later, again),
        resetting(dir, "soft"@, result.previous_head)(again) == Ok::<_, HaltView<DomainErrorView>>(
            (undone, m),
        ),
        later[0] == states.last(),
        (facts.named)(later[0], dir, (facts.short)(states[0].heads[dir])) == states[0].heads[dir],
    ensures
        ({
            let (before, after) = (states[0], states.last());
            let commit = (facts.named)(before, dir, target);
            &&& result.mode == mode
            &&& result.previous_head == (facts.short)(before.heads[dir])
            &&& result.new_head == (facts.short)(commit)
            &&& after.heads[dir] == commit
            &&& after.files == before.files
            &&& mode == "soft"@ ==> after.index == before.index
            &&& mode == "mixed"@ ==> after.index == before.index.insert(dir, (facts.tree)(commit))
            &&& later.last().heads[dir] == before.heads[dir]
            &&& later.last().files == before.files
            &&& later.last().index == after.index
            &&& undone.previous_head == result.new_head
            &&& undone.new_head == result.previous_head
        }),
{
    lemma_reset(facts, dir, mode, target, states, replies, result, n);
    lemma_reset(facts, dir, "soft"@, result.previous_head, later, again, undone, m);
    lemma_words();
    let first = seq!["reset"@, "--"@ + mode, target];
    let second = seq!["reset"@, "--"@ + "soft"@, result.previous_head];
    assert(first.len() == 3 && first[0] == "reset"@ && first[1] == "--"@ + mode && first[2]
        == target);
    assert(second.len() == 3 && second[0] == "reset"@ && second[1] == "--"@ + "soft"@ && second[2]
        == result.previous_head);
}

} // verus!
