//! What holds of the questions about history, where git answers them from one history.

use vstd::prelude::*;
use crate::domain::worktree::{BranchStatusView, LogEntryView};
use crate::infra::git::inspect::{
    branch_status_flow, commits_args, counts_in, is_linear, is_pushed_flow, parents_in,
    reset_target_flow, unpushed_flow, worktree_state_flow,
};
use crate::infra::git::working::entries_in;
use crate::protocol::{git, succeeded, ActionView, HaltView, ReplyView};
use crate::text::{before, begins_with, filled_lines, trimmed};

verus! {

// ---------------------------------------------------------------------------
// One history
// ---------------------------------------------------------------------------

/// A history: the commits that a revision holds, and the order in which commits are
/// listed.
pub struct History {
    pub reach: spec_fn(Seq<char>) -> Set<LogEntryView>,
    pub order: spec_fn(Set<LogEntryView>) -> Seq<LogEntryView>,
}

/// The commits in `to` that are not in `from`, as they are listed.
pub open spec fn alone(h: History, from: Seq<char>, to: Seq<char>) -> Seq<LogEntryView> {
    (h.order)((h.reach)(to).difference((h.reach)(from)))
}

/// Whether the history lists the commits of the two sides each once, and a hash stands
/// for one commit only.
pub open spec fn is_sound(h: History, a: Seq<char>, b: Seq<char>) -> bool {
    &&& lists(alone(h, a, b), (h.reach)(b).difference((h.reach)(a)))
    &&& lists(alone(h, b, a), (h.reach)(a).difference((h.reach)(b)))
    &&& forall|x: LogEntryView, y: LogEntryView|
        ((h.reach)(a) + (h.reach)(b)).contains(x) && ((h.reach)(a) + (h.reach)(b)).contains(y)
            && #[trigger] x.hash == #[trigger] y.hash ==> x == y
}

/// Whether a list has each commit of a set once, and no others.
pub open spec fn lists(list: Seq<LogEntryView>, commits: Set<LogEntryView>) -> bool {
    &&& list.no_duplicates()
    &&& forall|x: LogEntryView| #[trigger] list.contains(x) <==> commits.contains(x)
}

/// Whether a command printed the commits of a list.
pub open spec fn prints_commits(r: ReplyView, list: Seq<LogEntryView>) -> bool {
    r matches ReplyView::Output(o) && succeeded(o) && entries_in(trimmed(o.stdout), '\t') == list
}

/// Whether a command printed two numbers.
pub open spec fn prints_counts(r: ReplyView, left: nat, right: nat) -> bool {
    r matches ReplyView::Output(o) && succeeded(o) && (counts_in(trimmed(o.stdout)) matches Some((
        l,
        r,
    )) && l == left && r == right)
}

/// The replies to the questions about how `branch` stands to `base`.
pub open spec fn status_replies(
    world: spec_fn(ActionView) -> ReplyView,
    dir: Seq<char>,
    branch: Seq<char>,
    base: Seq<char>,
) -> Seq<ReplyView> {
    seq![
        world(git(dir, seq!["rev-list"@, "--left-right"@, "--count"@, base + "..."@ + branch])),
        world(git(dir, seq!["merge-base"@, base, branch])),
        world(git(dir, commits_args(base + ".."@ + branch))),
        world(git(dir, commits_args(branch + ".."@ + base))),
    ]
}

/// Whether git answers the questions about how `branch` stands to `base` from the
/// history: the numbers of the commits that are in one of the two alone, those of `base`
/// first; where the two part; and the commits themselves.
pub open spec fn tells_of(
    h: History,
    world: spec_fn(ActionView) -> ReplyView,
    dir: Seq<char>,
    branch: Seq<char>,
    base: Seq<char>,
) -> bool {
    let r = status_replies(world, dir, branch, base);
    &&& prints_counts(r[0], alone(h, branch, base).len(), alone(h, base, branch).len())
    &&& r[1] matches ReplyView::Output(o)
    &&& succeeded(o)
    &&& prints_commits(r[2], alone(h, base, branch))
    &&& prints_commits(r[3], alone(h, branch, base))
}

/// The status of a branch, where there is one.
pub open spec fn status_of(
    world: spec_fn(ActionView) -> ReplyView,
    dir: Seq<char>,
    branch: Seq<char>,
    base: Seq<char>,
) -> Option<BranchStatusView> {
    match branch_status_flow(dir, branch, base, status_replies(world, dir, branch, base), 0) {
        Ok((status, _)) => Some(status),
        Err(_) => None,
    }
}

// ---------------------------------------------------------------------------
// Branches
// ---------------------------------------------------------------------------

/// The commits that a status names are those that are in the branch and not in the
/// base, and those that are in the base and not in the branch, each once; the counts are
/// their numbers; and no hash is on both sides or twice on one.
pub proof fn law_status_tells_the_commits_apart(
    h: History,
    world: spec_fn(ActionView) -> ReplyView,
    dir: Seq<char>,
    branch: Seq<char>,
    base: Seq<char>,
)
    requires
        is_sound(h, branch, base),
        tells_of(h, world, dir, branch, base),
    ensures
        status_of(world, dir, branch, base) matches Some(s) && {
            &&& lists(s.ahead_commits, (h.reach)(branch).difference((h.reach)(base)))
            &&& lists(s.behind_commits, (h.reach)(base).difference((h.reach)(branch)))
            &&& s.ahead == s.ahead_commits.len()
            &&& s.behind == s.behind_commits.len()
            &&& s.up_to_date <==> s.ahead == 0 && s.behind == 0
            &&& forall|i: int, j: int|
                0 <= i < s.ahead_commits.len() && 0 <= j < s.behind_commits.len() ==> (
                #[trigger] s.ahead_commits[i]).hash != (#[trigger] s.behind_commits[j]).hash
            &&& forall|i: int, j: int|
                0 <= i < j < s.ahead_commits.len() ==> (#[trigger] s.ahead_commits[i]).hash != (
                #[trigger] s.ahead_commits[j]).hash
            &&& forall|i: int, j: int|
                0 <= i < j < s.behind_commits.len() ==> (#[trigger] s.behind_commits[i]).hash != (
                #[trigger] s.behind_commits[j]).hash
        },
{
    let ours = alone(h, base, branch);
    let theirs = alone(h, branch, base);
    assert(status_of(world, dir, branch, base) matches Some(s) && s.ahead_commits == ours
        && s.behind_commits == theirs && s.ahead == ours.len() && s.behind == theirs.len()
        && s.up_to_date == (s.ahead == 0 && s.behind == 0));
    let all = (h.reach)(branch) + (h.reach)(base);
    assert forall|i: int| 0 <= i < ours.len() implies all.contains(#[trigger] ours[i]) && (
    h.reach)(branch).difference((h.reach)(base)).contains(ours[i]) by {
        assert(ours.contains(ours[i]));
    }
    assert forall|j: int| 0 <= j < theirs.len() implies all.contains(#[trigger] theirs[j]) && (
    h.reach)(base).difference((h.reach)(branch)).contains(theirs[j]) by {
        assert(theirs.contains(theirs[j]));
    }
}

/// Swapping the branch and the base swaps ahead with behind, and the two lists; and a
/// branch is up to date with itself, with nothing on either side.
pub proof fn law_swapping_swaps_ahead_and_behind(
    h: History,
    world: spec_fn(ActionView) -> ReplyView,
    dir: Seq<char>,
    a: Seq<char>,
    b: Seq<char>,
)
    requires
        is_sound(h, a, b),
        tells_of(h, world, dir, a, b),
        tells_of(h, world, dir, b, a),
    ensures
        status_of(world, dir, a, b) matches Some(x) && (status_of(world, dir, b, a) matches Some(y)
            && {
            &&& x.ahead == y.behind
            &&& x.behind == y.ahead
            &&& x.ahead_commits == y.behind_commits
            &&& x.behind_commits == y.ahead_commits
            &&& x.up_to_date == y.up_to_date
            &&& a == b ==> x.ahead == 0 && x.behind == 0 && x.up_to_date && x.ahead_commits.len()
                == 0 && x.behind_commits.len() == 0
        }),
{
    if a == b {
        let none = alone(h, a, b);
        if none.len() > 0 {
            assert(none.contains(none[0]));
        }
    }
}

/// Whatever the replies are, swapped counts and swapped lists give a swapped status.
pub proof fn law_swapped_replies_swap_the_status(
    dir: Seq<char>,
    a: Seq<char>,
    b: Seq<char>,
    counts: ReplyView,
    swapped: ReplyView,
    fork: ReplyView,
    ours: ReplyView,
    theirs: ReplyView,
    left: nat,
    right: nat,
)
    requires
        prints_counts(counts, left, right),
        prints_counts(swapped, right, left),
    ensures
        match (
            branch_status_flow(dir, a, b, seq![counts, fork, ours, theirs], 0),
            branch_status_flow(dir, b, a, seq![swapped, fork, theirs, ours], 0),
        ) {
            (Ok((x, _)), Ok((y, _))) => {
                &&& x.ahead == y.behind
                &&& x.behind == y.ahead
                &&& x.ahead_commits == y.behind_commits
                &&& x.behind_commits == y.ahead_commits
                &&& x.up_to_date == y.up_to_date
                &&& x.common_ancestor == y.common_ancestor
            },
            (Ok(_), Err(_)) | (Err(_), Ok(_)) => false,
            _ => true,
        },
{
}

/// The commits that are not pushed are those by which the branch is ahead of the branch
/// of the remote: both come from the same command, and from one reply they come out the
/// same.
pub proof fn law_unpushed_commits_are_ahead(
    dir: Seq<char>,
    branch: Seq<char>,
    remote: Seq<char>,
    head: ReplyView,
    log: ReplyView,
    counts: ReplyView,
    fork: ReplyView,
    behind: ReplyView,
)
    ensures
        ({
            let tracking = remote + "/"@ + branch;
            let unpushed = unpushed_flow(dir, branch, remote, seq![head, log], 0);
            let status = branch_status_flow(
                dir,
                branch,
                tracking,
                seq![counts, fork, log, behind],
                0,
            );
            &&& unpushed_flow(dir, branch, remote, seq![head], 0) matches Err(HaltView::Ask(a))
                ==> a == git(dir, commits_args(tracking + ".."@ + branch))
            &&& branch_status_flow(dir, branch, tracking, seq![counts, fork], 0) matches Err(
                HaltView::Ask(a),
            ) ==> a == git(dir, commits_args(tracking + ".."@ + branch))
            &&& unpushed matches Ok((u, _)) ==> status matches Ok((s, _)) ==> u.commits
                == s.ahead_commits
        }),
{
}

// ---------------------------------------------------------------------------
// Working directories
// ---------------------------------------------------------------------------

/// The replies to the questions about the state of a working directory whose branch has
/// an upstream.
pub open spec fn state_replies(
    world: spec_fn(ActionView) -> ReplyView,
    dir: Seq<char>,
    branch: Seq<char>,
    upstream: Seq<char>,
) -> Seq<ReplyView> {
    seq![world(git(dir, seq!["rev-parse"@, "--abbrev-ref"@, "@{upstream}"@]))] + status_replies(
        world,
        dir,
        branch,
        upstream,
    ) + seq![world(git(dir, seq!["status"@, "--porcelain"@]))]
}

/// Where a branch has an upstream, the state of its working directory is ahead by the
/// number of commits that are in the branch and not in the upstream, and behind by the
/// number of those that are in the upstream and not in the branch; these are the numbers
/// that the status of the branch against the upstream has.
pub proof fn law_states_count_from_the_history(
    h: History,
    world: spec_fn(ActionView) -> ReplyView,
    dir: Seq<char>,
    branch: Seq<char>,
    upstream: Seq<char>,
)
    requires
        is_sound(h, branch, upstream),
        tells_of(h, world, dir, branch, upstream),
        upstream.len() > 0,
        state_replies(world, dir, branch, upstream)[0] matches ReplyView::Output(o) && succeeded(o)
            && trimmed(o.stdout) == upstream,
        state_replies(world, dir, branch, upstream)[5] matches ReplyView::Output(o) && succeeded(o),
    ensures
        worktree_state_flow(
            dir,
            Some(branch),
            state_replies(world, dir, branch, upstream),
            0,
        ) matches Ok((s, _)) && {
            &&& s.tracking == Some(upstream)
            &&& s.ahead == (h.reach)(branch).difference((h.reach)(upstream)).len()
            &&& s.behind == (h.reach)(upstream).difference((h.reach)(branch)).len()
            &&& status_of(world, dir, branch, upstream) matches Some(b) && s.ahead == b.ahead
                && s.behind == b.behind
        },
{
    let ours = alone(h, upstream, branch);
    let theirs = alone(h, branch, upstream);
    let r = status_replies(world, dir, branch, upstream);
    let all = state_replies(world, dir, branch, upstream);
    assert(all[1] == r[0] && all[2] == r[1] && all[3] == r[2] && all[4] == r[3]);
    ours.unique_seq_to_set();
    theirs.unique_seq_to_set();
    assert(ours.to_set() =~= (h.reach)(branch).difference((h.reach)(upstream)));
    assert(theirs.to_set() =~= (h.reach)(upstream).difference((h.reach)(branch)));
}

// ---------------------------------------------------------------------------
// Refs
// ---------------------------------------------------------------------------

/// The refs of a repository, and whether one holds a commit.
pub struct Refs {
    pub names: Seq<Seq<char>>,
    pub holds: spec_fn(Seq<char>, Seq<char>) -> bool,
}

/// Whether git answers from one set of refs when it is asked for those that hold a
/// commit: it names those that begin as asked.
pub open spec fn names_refs(refs: Refs, a: ActionView, r: ReplyView) -> bool {
    a matches ActionView::Git { args, .. } && (args.len() == 5 && args[0] == "for-each-ref"@
        && args[1] == "--contains"@ && args[3] == "--format=%(refname)"@ ==> (r matches
        ReplyView::Output(o) && succeeded(o) && filled_lines(trimmed(o.stdout))
        == refs.names.filter(
        |name: Seq<char>| begins_with(name, args[4]) && (refs.holds)(name, args[2]),
    )))
}

/// A commit is pushed to a remote where a ref under `refs/remotes/` and the name of that
/// remote holds it, and the refs that are named are all of these.
pub proof fn law_pushed_commits_are_held_by_a_ref_of_the_remote(
    refs: Refs,
    dir: Seq<char>,
    commit: Seq<char>,
    remote: Seq<char>,
    reply: ReplyView,
)
    requires
        is_pushed_flow(dir, commit, remote, seq![], 0) matches Err(HaltView::Ask(a)) && names_refs(
            refs,
            a,
            reply,
        ),
    ensures
        is_pushed_flow(dir, commit, remote, seq![reply], 0) matches Ok((result, _)) && {
            let holds = |name: Seq<char>|
                begins_with(name, "refs/remotes/"@ + remote + "/"@) && (refs.holds)(name, commit);
            &&& result.refs == refs.names.filter(holds)
            &&& result.pushed <==> exists|i: int|
                0 <= i < refs.names.len() && #[trigger] holds(refs.names[i])
        },
{
    let holds = |name: Seq<char>|
        begins_with(name, "refs/remotes/"@ + remote + "/"@) && (refs.holds)(name, commit);
    let found = refs.names.filter(holds);
    let args = seq![
        "for-each-ref"@,
        "--contains"@,
        commit,
        "--format=%(refname)"@,
        "refs/remotes/"@ + remote + "/"@,
    ];
    assert(args.len() == 5 && args[0] == "for-each-ref"@ && args[1] == "--contains"@ && args[2]
        == commit && args[3] == "--format=%(refname)"@ && args[4] == "refs/remotes/"@ + remote
        + "/"@);
    assert(refs.names.filter(
        |name: Seq<char>| begins_with(name, args[4]) && (refs.holds)(name, args[2]),
    ) == found) by {
        let same = |name: Seq<char>| begins_with(name, args[4]) && (refs.holds)(name, args[2]);
        assert(same =~= holds);
    }
    if found.len() > 0 {
        refs.names.lemma_filter_pred(holds, 0);
        assert(found.contains(found[0]));
        refs.names.lemma_filter_contains_rev(holds, found[0]);
        let i = choose|i: int| 0 <= i < refs.names.len() && refs.names[i] == found[0];
        assert(holds(refs.names[i]));
    }
    if exists|i: int| 0 <= i < refs.names.len() && #[trigger] holds(refs.names[i]) {
        let i = choose|i: int| 0 <= i < refs.names.len() && #[trigger] holds(refs.names[i]);
        refs.names.lemma_filter_contains(holds, i);
    }
}

// ---------------------------------------------------------------------------
// Walks
// ---------------------------------------------------------------------------

/// Whether a command printed the first lines of a walk, as many as there are up to
/// `steps` lines behind the first.
pub open spec fn prints_walk(r: ReplyView, walk: Seq<Seq<char>>, steps: u32) -> bool {
    r matches ReplyView::Output(o) && succeeded(o) && filled_lines(trimmed(o.stdout))
        == if walk.len() <= steps {
        walk
    } else {
        walk.take(steps + 1)
    }
}

/// Walking `a` steps and then `b` steps comes to the same commit as walking `a + b`
/// steps, and the long walk is linear if and only if both others are. A walk of no steps
/// ends where it starts. `walk` has the lines of the history from the start on, and the
/// second walk starts at the commit that the first came to.
pub proof fn law_walks_compose(
    dir: Seq<char>,
    from: Seq<char>,
    walk: Seq<Seq<char>>,
    a: u32,
    b: u32,
    first: ReplyView,
    second: ReplyView,
    both: ReplyView,
)
    requires
        a + b <= u32::MAX,
        a < walk.len(),
        prints_walk(first, walk, a),
        prints_walk(second, walk.skip(a as int), b),
        prints_walk(both, walk, (a + b) as u32),
    ensures
        reset_target_flow(dir, a, from, seq![first], 0) matches Ok((x, _)) && {
            let y = reset_target_flow(dir, b, x.target_hash, seq![second], 0);
            let z = reset_target_flow(dir, (a + b) as u32, from, seq![both], 0);
            &&& a == 0 ==> x.target_hash == before(walk[0], '\t')
            &&& y is Ok <==> z is Ok
            &&& y matches Ok((y, _)) ==> z matches Ok((z, _)) ==> {
                &&& z.target_hash == y.target_hash
                &&& z.target_subject == y.target_subject
                &&& z.linear == (x.linear && y.linear)
            }
        },
{
    let n = a + b;
    if walk.len() > n {
        let whole = walk.take(n + 1);
        let start = walk.take(a + 1);
        let rest = walk.skip(a as int).take(b + 1);
        assert(rest[b as int] == whole[n]);
        assert(is_linear(whole) == (is_linear(start) && is_linear(rest))) by {
            if is_linear(start) && is_linear(rest) {
                assert forall|i: int| 0 <= i < whole.len() implies parents_in(#[trigger] whole[i])
                    <= 1 by {
                    if i <= a {
                        assert(whole[i] == start[i]);
                    } else {
                        assert(whole[i] == rest[i - a]);
                    }
                }
            }
            if is_linear(whole) {
                assert forall|i: int| 0 <= i < start.len() implies parents_in(#[trigger] start[i])
                    <= 1 by {
                    assert(whole[i] == start[i]);
                }
                assert forall|i: int| 0 <= i < rest.len() implies parents_in(#[trigger] rest[i])
                    <= 1 by {
                    assert(whole[i + a] == rest[i]);
                }
            }
        }
    }
}

} // verus!
