//! Questions about branches, tags and history. None of them changes anything.

use vstd::prelude::*;
use vstd::string::*;
use crate::domain::error::{DomainError, DomainErrorView};
use crate::domain::worktree::{
    BranchStatus, BranchStatusView, IsPushedResult, IsPushedResultView, ResetTargetResult,
    ResetTargetResultView, TagPushStatus, TagPushStatusView, UnpushedCommits, UnpushedCommitsView,
    WorktreeState, WorktreeStateView,
};
use crate::infra::git::working::{entries_in, parse_entries};
use crate::protocol::{
    flow_view, git, git_text, replied, reply_to, run_git, succeeded, Action, Flow, FlowView, Halt,
    HaltView, Reply, ReplyView,
};
use crate::text::{
    append, before, decimal, decimal_of, field_two, filled_lines, nonempty_lines, parse_u32, parted,
    second_field, spelled_u32, split_once, trim, trimmed, word_count, words2, words3, words4,
    words5, words6, words_in,
};

verus! {

// ---------------------------------------------------------------------------
// Branches
// ---------------------------------------------------------------------------

/// How many commits are on the left side alone and how many on the right side
/// alone, from the two numbers with a tab between that `git rev-list` prints.
pub open spec fn counts_in(raw: Seq<char>) -> Option<(u32, u32)> {
    match parted(raw, '\t') {
        Some((left, right)) => match (spelled_u32(trimmed(left)), spelled_u32(trimmed(right))) {
            (Some(l), Some(r)) => Some((l, r)),
            _ => None,
        },
        None => None,
    }
}

/// The command that lists the commits in `range`, a hash, a tab and a subject each.
pub open spec fn commits_args(range: Seq<char>) -> Seq<Seq<char>> {
    seq!["log"@, "--format=%H%x09%s"@, range]
}

/// How `branch` stands to `base`: the counts, the point where they part, and the
/// commits on either side.
pub open spec fn branch_status_flow(
    dir: Seq<char>,
    branch: Seq<char>,
    base: Seq<char>,
    replies: Seq<ReplyView>,
    at: nat,
) -> FlowView<BranchStatusView, DomainErrorView> {
    match git_text(
        dir,
        seq!["rev-list"@, "--left-right"@, "--count"@, base + "..."@ + branch],
        replies,
        at,
    ) {
        Ok((raw, n)) => match counts_in(raw) {
            Some((behind, ahead)) => parting_flow(dir, branch, base, behind, ahead, replies, n),
            None => {
                let message = "unexpected rev-list output: "@ + raw;
                Err(HaltView::Fail(DomainErrorView::Git(message), n))
            },
        },
        Err(h) => Err(h),
    }
}

/// The rest of the status, once the counts are known.
pub open spec fn parting_flow(
    dir: Seq<char>,
    branch: Seq<char>,
    base: Seq<char>,
    behind: u32,
    ahead: u32,
    replies: Seq<ReplyView>,
    at: nat,
) -> FlowView<BranchStatusView, DomainErrorView> {
    match git_text(dir, seq!["merge-base"@, base, branch], replies, at) {
        Ok((common_ancestor, n)) => match git_text(
            dir,
            commits_args(base + ".."@ + branch),
            replies,
            n,
        ) {
            Ok((ours, n)) => match git_text(
                dir,
                commits_args(branch + ".."@ + base),
                replies,
                n,
            ) {
                Ok((theirs, n)) => Ok(
                    (
                        BranchStatusView {
                            ahead,
                            behind,
                            up_to_date: ahead == 0 && behind == 0,
                            ahead_commits: entries_in(ours, '\t'),
                            behind_commits: entries_in(theirs, '\t'),
                            common_ancestor,
                        },
                        n,
                    ),
                ),
                Err(h) => Err(h),
            },
            Err(h) => Err(h),
        },
        Err(h) => Err(h),
    }
}

/// Reads the two numbers that `git rev-list --left-right --count` prints.
pub fn parse_counts(raw: &str) -> (r: Option<(u32, u32)>)
    ensures
        r == counts_in(raw@),
{
    if let Some((left, right)) = split_once(raw, '\t') {
        let left = parse_u32(trim(left.as_str()).as_str());
        let right = parse_u32(trim(right.as_str()).as_str());
        if let (Some(l), Some(r)) = (left, right) {
            return Some((l, r));
        }
    }
    None
}

/// How `branch` stands to `base`, which is the point of reference.
pub fn branch_status(
    working_dir: &str,
    branch: &str,
    base: &str,
    replies: &[Reply],
    at: usize,
) -> (r: Flow<BranchStatus, DomainError>)
    ensures
        flow_view(r) == branch_status_flow(
            working_dir@,
            branch@,
            base@,
            replies.deep_view(),
            at as nat,
        ),
{
    let sides = base.to_string().concat("...").concat(branch);
    let args = words4("rev-list", "--left-right", "--count", sides.as_str());
    let (raw, at) = run_git(working_dir, args, replies, at)?;
    let (behind, ahead) = match parse_counts(raw.as_str()) {
        Some(counts) => counts,
        None => {
            let message = "unexpected rev-list output: ".to_string().concat(raw.as_str());
            return Err(Halt::Fail(DomainError::Git(message), at));
        },
    };
    let (common_ancestor, at) = run_git(
        working_dir,
        words3("merge-base", base, branch),
        replies,
        at,
    )?;
    let range = base.to_string().concat("..").concat(branch);
    let args = words3("log", "--format=%H%x09%s", range.as_str());
    let (ours, at) = run_git(working_dir, args, replies, at)?;
    let range = branch.to_string().concat("..").concat(base);
    let args = words3("log", "--format=%H%x09%s", range.as_str());
    let (theirs, at) = run_git(working_dir, args, replies, at)?;
    let status = BranchStatus {
        ahead,
        behind,
        up_to_date: ahead == 0 && behind == 0,
        ahead_commits: parse_entries(ours.as_str(), '\t'),
        behind_commits: parse_entries(theirs.as_str(), '\t'),
        common_ancestor,
    };
    Ok((status, at))
}

// ---------------------------------------------------------------------------
// What is on a remote
// ---------------------------------------------------------------------------

/// The commits on a branch that the remote's branch does not have.
pub open spec fn unpushed_flow(
    dir: Seq<char>,
    branch: Seq<char>,
    remote: Seq<char>,
    replies: Seq<ReplyView>,
    at: nat,
) -> FlowView<UnpushedCommitsView, DomainErrorView> {
    let tracking = remote + "/"@ + branch;
    match git_text(dir, seq!["rev-parse"@, tracking], replies, at) {
        Ok((remote_head, n)) => match git_text(
            dir,
            commits_args(tracking + ".."@ + branch),
            replies,
            n,
        ) {
            Ok((raw, n)) => {
                let commits = entries_in(raw, '\t');
                Ok(
                    (
                        UnpushedCommitsView { commits, count: commits.len() as u32, remote_head },
                        n,
                    ),
                )
            },
            Err(h) => Err(h),
        },
        Err(h) => Err(h),
    }
}

/// The commits on `branch` that `branch` of `remote` does not have.
pub fn unpushed_commits(
    working_dir: &str,
    branch: &str,
    remote: &str,
    replies: &[Reply],
    at: usize,
) -> (r: Flow<UnpushedCommits, DomainError>)
    ensures
        flow_view(r) == unpushed_flow(
            working_dir@,
            branch@,
            remote@,
            replies.deep_view(),
            at as nat,
        ),
{
    let tracking = remote.to_string().concat("/").concat(branch);
    let args = words2("rev-parse", tracking.as_str());
    let (remote_head, at) = run_git(working_dir, args, replies, at)?;
    let range = tracking.concat("..").concat(branch);
    let args = words3("log", "--format=%H%x09%s", range.as_str());
    let (raw, at) = run_git(working_dir, args, replies, at)?;
    let commits = parse_entries(raw.as_str(), '\t');
    let count = commits.len() as u32;
    Ok((UnpushedCommits { commits, count, remote_head }, at))
}

/// The branches of a remote that hold a commit.
pub open spec fn is_pushed_flow(
    dir: Seq<char>,
    commit: Seq<char>,
    remote: Seq<char>,
    replies: Seq<ReplyView>,
    at: nat,
) -> FlowView<IsPushedResultView, DomainErrorView> {
    match git_text(
        dir,
        seq![
            "for-each-ref"@,
            "--contains"@,
            commit,
            "--format=%(refname)"@,
            "refs/remotes/"@ + remote + "/"@,
        ],
        replies,
        at,
    ) {
        Ok((raw, n)) => {
            let refs = filled_lines(raw);
            Ok((IsPushedResultView { pushed: refs.len() > 0, refs }, n))
        },
        Err(h) => Err(h),
    }
}

/// Whether any branch of `remote` holds `commit`.
pub fn is_pushed(
    working_dir: &str,
    commit: &str,
    remote: &str,
    replies: &[Reply],
    at: usize,
) -> (r: Flow<IsPushedResult, DomainError>)
    ensures
        flow_view(r) == is_pushed_flow(
            working_dir@,
            commit@,
            remote@,
            replies.deep_view(),
            at as nat,
        ),
{
    let space = "refs/remotes/".to_string().concat(remote).concat("/");
    let args = words5(
        "for-each-ref",
        "--contains",
        commit,
        "--format=%(refname)",
        space.as_str(),
    );
    let (raw, at) = run_git(working_dir, args, replies, at)?;
    let refs = nonempty_lines(raw.as_str());
    let pushed = !refs.is_empty();
    Ok((IsPushedResult { pushed, refs }, at))
}

/// The second tab field of each line that has one.
pub open spec fn second_fields(lines: Seq<Seq<char>>) -> Seq<Seq<char>>
    decreases lines.len(),
{
    if lines.len() == 0 {
        seq![]
    } else {
        let earlier = second_fields(lines.drop_last());
        match second_field(lines.last(), '\t') {
            Some(field) => earlier.push(field),
            None => earlier,
        }
    }
}

/// The refs under which a remote itself knows a tag.
pub open spec fn tag_pushed_flow(
    dir: Seq<char>,
    tag: Seq<char>,
    remote: Seq<char>,
    replies: Seq<ReplyView>,
    at: nat,
) -> FlowView<TagPushStatusView, DomainErrorView> {
    match git_text(
        dir,
        seq!["ls-remote"@, "--tags"@, remote, "refs/tags/"@ + tag],
        replies,
        at,
    ) {
        Ok((raw, n)) => {
            let remote_refs = second_fields(filled_lines(raw));
            Ok((TagPushStatusView { pushed: remote_refs.len() > 0, remote_refs }, n))
        },
        Err(h) => Err(h),
    }
}

/// Reads the refs in what `git ls-remote` prints.
pub fn parse_refs(raw: &str) -> (r: Vec<String>)
    ensures
        r.deep_view() == second_fields(filled_lines(raw@)),
{
    let all = nonempty_lines(raw);
    let ghost ls = all.deep_view();
    let mut r: Vec<String> = Vec::new();
    let mut i: usize = 0;
    while i < all.len()
        invariant
            ls == all.deep_view(),
            i <= all@.len(),
            r.deep_view() == second_fields(ls.take(i as int)),
        decreases all@.len() - i,
    {
        assert(ls.take(i + 1).drop_last() =~= ls.take(i as int));
        assert(ls.take(i + 1).last() == all@[i as int]@);
        if let Some(field) = field_two(all[i].as_str(), '\t') {
            append(&mut r, field);
        }
        i += 1;
    }
    assert(ls.take(i as int) =~= ls);
    r
}

/// Whether `remote` itself has `tag`.
pub fn tag_pushed(working_dir: &str, tag: &str, remote: &str, replies: &[Reply], at: usize) -> (r:
    Flow<TagPushStatus, DomainError>)
    ensures
        flow_view(r) == tag_pushed_flow(
            working_dir@,
            tag@,
            remote@,
            replies.deep_view(),
            at as nat,
        ),
{
    let name = "refs/tags/".to_string().concat(tag);
    let args = words4("ls-remote", "--tags", remote, name.as_str());
    let (raw, at) = run_git(working_dir, args, replies, at)?;
    let remote_refs = parse_refs(raw.as_str());
    let pushed = !remote_refs.is_empty();
    Ok((TagPushStatus { pushed, remote_refs }, at))
}

// ---------------------------------------------------------------------------
// Walking back
// ---------------------------------------------------------------------------

/// How many parents a line of the walk names: the words of its second tab field.
pub open spec fn parents_in(line: Seq<char>) -> nat {
    match second_field(line, '\t') {
        Some(parents) => words_in(parents),
        None => 0,
    }
}

/// Whether there is no merge among the lines of the walk.
pub open spec fn is_linear(lines: Seq<Seq<char>>) -> bool {
    forall|i: int| 0 <= i < lines.len() ==> parents_in(#[trigger] lines[i]) <= 1
}

/// What stands behind the second tab of a line.
pub open spec fn subject_in(line: Seq<char>) -> Seq<char> {
    match parted(line, '\t') {
        Some((_, rest)) => match parted(rest, '\t') {
            Some((_, subject)) => subject,
            None => seq![],
        },
        None => seq![],
    }
}

/// The end of a walk of `steps` steps, from the lines of the walk.
pub open spec fn target_in(lines: Seq<Seq<char>>, steps: u32) -> Result<
    ResetTargetResultView,
    DomainErrorView,
> {
    if lines.len() <= steps {
        let reached = if lines.len() > 0 {
            (lines.len() - 1) as nat
        } else {
            0
        };
        Err(
            DomainErrorView::Git(
                "history too shallow: requested "@ + decimal_of(steps as nat) + " steps, only "@
                    + decimal_of(reached) + " commits reachable"@,
            ),
        )
    } else {
        Ok(
            ResetTargetResultView {
                target_hash: before(lines[steps as int], '\t'),
                target_subject: subject_in(lines[steps as int]),
                linear: is_linear(lines),
            },
        )
    }
}

/// Walking back from a commit along the first parents.
pub open spec fn reset_target_flow(
    dir: Seq<char>,
    steps_back: u32,
    from: Seq<char>,
    replies: Seq<ReplyView>,
    at: nat,
) -> FlowView<ResetTargetResultView, DomainErrorView> {
    match git_text(
        dir,
        seq![
            "log"@,
            "--first-parent"@,
            "--format=%H%x09%P%x09%s"@,
            "-n"@,
            decimal_of((steps_back + 1) as nat),
            from,
        ],
        replies,
        at,
    ) {
        Ok((raw, n)) => match target_in(filled_lines(raw), steps_back) {
            Ok(target) => Ok((target, n)),
            Err(e) => Err(HaltView::Fail(e, n)),
        },
        Err(h) => Err(h),
    }
}

/// Whether there is no merge among the lines of the walk.
fn linear_walk(lines: &[String]) -> (r: bool)
    ensures
        r == is_linear(lines.deep_view()),
{
    let ghost ls = lines.deep_view();
    let mut linear: bool = true;
    let mut i: usize = 0;
    while i < lines.len()
        invariant
            ls == lines.deep_view(),
            i <= lines@.len(),
            linear == forall|j: int| 0 <= j < i ==> parents_in(#[trigger] ls[j]) <= 1,
        decreases lines@.len() - i,
    {
        let parents = match field_two(lines[i].as_str(), '\t') {
            Some(field) => word_count(field.as_str()),
            None => 0,
        };
        assert(ls[i as int] == lines@[i as int]@);
        assert(parents == parents_in(ls[i as int]));
        linear = linear && parents <= 1;
        i += 1;
    }
    linear
}

/// The end of a walk of `steps` steps, from the lines of the walk.
pub fn target_of(lines: &[String], steps: u32) -> (r: Result<ResetTargetResult, DomainError>)
    ensures
        match r {
            Ok(target) => target_in(lines.deep_view(), steps) == Ok::<_, DomainErrorView>(
                target.deep_view(),
            ),
            Err(e) => target_in(lines.deep_view(), steps) == Err::<ResetTargetResultView, _>(
                e.deep_view(),
            ),
        },
{
    let n = lines.len();
    if n <= steps as usize {
        let reached: usize = if n > 0 {
            n - 1
        } else {
            0
        };
        let message = "history too shallow: requested ".to_string().concat(
            decimal(steps as u64).as_str(),
        ).concat(" steps, only ").concat(decimal(reached as u64).as_str()).concat(
            " commits reachable",
        );
        return Err(DomainError::Git(message));
    }
    let line = lines[steps as usize].as_str();
    let linear = linear_walk(lines);
    assert(line@ == lines.deep_view()[steps as int]);
    match split_once(line, '\t') {
        Some((target_hash, rest)) => {
            let target_subject = match split_once(rest.as_str(), '\t') {
                Some((_, subject)) => subject,
                None => String::new(),
            };
            Ok(ResetTargetResult { target_hash, target_subject, linear })
        },
        None => {
            proof {
                crate::text::lemma_position_found(line@, '\t');
            }
            assert(before(line@, '\t') =~= line@);
            Ok(
                ResetTargetResult {
                    target_hash: line.to_string(),
                    target_subject: String::new(),
                    linear,
                },
            )
        },
    }
}

/// The commit `steps_back` steps before `from`, along the first parents.
pub fn reset_target(
    working_dir: &str,
    steps_back: u32,
    from: &str,
    replies: &[Reply],
    at: usize,
) -> (r: Flow<ResetTargetResult, DomainError>)
    ensures
        flow_view(r) == reset_target_flow(
            working_dir@,
            steps_back,
            from@,
            replies.deep_view(),
            at as nat,
        ),
{
    let count = decimal(steps_back as u64 + 1);
    let args = words6(
        "log",
        "--first-parent",
        "--format=%H%x09%P%x09%s",
        "-n",
        count.as_str(),
        from,
    );
    let (raw, at) = run_git(working_dir, args, replies, at)?;
    let lines = nonempty_lines(raw.as_str());
    match target_of(lines.as_slice(), steps_back) {
        Ok(target) => Ok((target, at)),
        Err(e) => Err(Halt::Fail(e, at)),
    }
}

// ---------------------------------------------------------------------------
// The state of a worktree
// ---------------------------------------------------------------------------

/// The upstream of the current branch. Exit code 128 says that there is none.
pub open spec fn upstream_flow(dir: Seq<char>, replies: Seq<ReplyView>, at: nat) -> FlowView<
    Option<Seq<char>>,
    DomainErrorView,
> {
    match replied(
        git(dir, seq!["rev-parse"@, "--abbrev-ref"@, "@{upstream}"@]),
        replies,
        at,
    ) {
        Ok(ReplyView::Output(o)) => if succeeded(o) {
            if trimmed(o.stdout).len() == 0 {
                Ok((None, at + 1))
            } else {
                Ok((Some(trimmed(o.stdout)), at + 1))
            }
        } else if o.code == Some(128i32) {
            Ok((None, at + 1))
        } else {
            Err(HaltView::Fail(DomainErrorView::Git(trimmed(o.stderr)), at + 1))
        },
        Ok(ReplyView::Failed(e)) => Err(HaltView::Fail(DomainErrorView::Io(e), at + 1)),
        Ok(_) => Err(HaltView::Mismatch),
        Err(h) => Err(h),
    }
}

/// How far a branch is ahead of and behind its upstream; level where it has none.
pub open spec fn distance_flow(
    dir: Seq<char>,
    branch: Seq<char>,
    tracking: Option<Seq<char>>,
    replies: Seq<ReplyView>,
    at: nat,
) -> FlowView<(u32, u32), DomainErrorView> {
    match tracking {
        Some(upstream) => match branch_status_flow(dir, branch, upstream, replies, at) {
            Ok((status, n)) => Ok(((status.ahead, status.behind), n)),
            Err(h) => Err(h),
        },
        None => Ok(((0, 0), at)),
    }
}

/// The number of changed files, `u32::MAX` at most.
pub open spec fn changes_in(porcelain: Seq<char>) -> u32 {
    if filled_lines(porcelain).len() <= u32::MAX {
        filled_lines(porcelain).len() as u32
    } else {
        u32::MAX
    }
}

/// The branch to look at: the given one, or else the current one.
pub open spec fn branch_flow(
    dir: Seq<char>,
    branch: Option<Seq<char>>,
    replies: Seq<ReplyView>,
    at: nat,
) -> FlowView<Seq<char>, DomainErrorView> {
    match branch {
        Some(b) => Ok((b, at)),
        None => git_text(dir, seq!["branch"@, "--show-current"@], replies, at),
    }
}

/// The state of a worktree: the upstream, the distance to it and the changes.
pub open spec fn worktree_state_flow(
    dir: Seq<char>,
    branch: Option<Seq<char>>,
    replies: Seq<ReplyView>,
    at: nat,
) -> FlowView<WorktreeStateView, DomainErrorView> {
    match branch_flow(dir, branch, replies, at) {
        Ok((name, n)) => match upstream_flow(dir, replies, n) {
            Ok((tracking, n)) => match distance_flow(dir, name, tracking, replies, n) {
                Ok(((ahead, behind), n)) => match git_text(
                    dir,
                    seq!["status"@, "--porcelain"@],
                    replies,
                    n,
                ) {
                    Ok((porcelain, n)) => {
                        let uncommitted = changes_in(porcelain);
                        Ok(
                            (
                                WorktreeStateView {
                                    clean: uncommitted == 0,
                                    ahead,
                                    behind,
                                    tracking,
                                    uncommitted,
                                },
                                n,
                            ),
                        )
                    },
                    Err(h) => Err(h),
                },
                Err(h) => Err(h),
            },
            Err(h) => Err(h),
        },
        Err(h) => Err(h),
    }
}

/// The upstream of the current branch.
fn upstream(dir: &str, replies: &[Reply], at: usize) -> (r: Flow<Option<String>, DomainError>)
    ensures
        flow_view(r) == upstream_flow(dir@, replies.deep_view(), at as nat),
{
    let args = words3("rev-parse", "--abbrev-ref", "@{upstream}");
    match reply_to(Action::Git { dir: dir.to_string(), args }, replies, at)? {
        Reply::Output(o) => if o.code == Some(0) {
            let name = trim(o.stdout.as_str());
            if name.as_str().is_empty() {
                Ok((None, at + 1))
            } else {
                Ok((Some(name), at + 1))
            }
        } else if o.code == Some(128) {
            Ok((None, at + 1))
        } else {
            Err(Halt::Fail(DomainError::Git(trim(o.stderr.as_str())), at + 1))
        },
        Reply::Failed(e) => Err(Halt::Fail(DomainError::Io(e.clone()), at + 1)),
        _ => Err(Halt::Mismatch),
    }
}

/// The state of a worktree.
pub fn worktree_state(working_dir: &str, branch: Option<&str>, replies: &[Reply], at: usize) -> (r:
    Flow<WorktreeState, DomainError>)
    ensures
        flow_view(r) == worktree_state_flow(
            working_dir@,
            branch.deep_view(),
            replies.deep_view(),
            at as nat,
        ),
{
    let (name, at) = match branch {
        Some(b) => (b.to_string(), at),
        None => run_git(working_dir, words2("branch", "--show-current"), replies, at)?,
    };
    let (tracking, at) = upstream(working_dir, replies, at)?;
    let (ahead, behind, at) = match &tracking {
        Some(base) => {
            let (status, at) = branch_status(
                working_dir,
                name.as_str(),
                base.as_str(),
                replies,
                at,
            )?;
            (status.ahead, status.behind, at)
        },
        None => (0, 0, at),
    };
    let (porcelain, at) = run_git(working_dir, words2("status", "--porcelain"), replies, at)?;
    let changed = nonempty_lines(porcelain.as_str());
    let uncommitted: u32 = if changed.len() <= u32::MAX as usize {
        changed.len() as u32
    } else {
        u32::MAX
    };
    assert(changed.deep_view().len() == changed@.len());
    let clean = uncommitted == 0;
    Ok((WorktreeState { clean, ahead, behind, tracking, uncommitted }, at))
}

} // verus!
