//! What each operation asks git for, word for word and in which order, and what it makes
//! of the replies.

use vstd::prelude::*;
use crate::domain::error::DomainErrorView;
use crate::domain::worktree::{
    BranchStatusView, CommitResultView, DiffResultView, IsPushedResultView, MergeResultView,
    RepoStatusView, ResetResultView, TagPushStatusView, UnpushedCommitsView, WorktreeStateView,
    WorktreeView,
};
use crate::infra::git::branch::{among_flow, branch_delete_flow, known_dir_flow, merge_flow};
use crate::infra::git::inspect::{
    branch_status_flow, counts_in, is_pushed_flow, reset_target_flow, second_fields,
    tag_pushed_flow, target_in, unpushed_flow, worktree_state_flow,
};
use crate::infra::git::path::{home_flow, is_absolute, worktree_path_of};
use crate::infra::git::remote::{
    fetch_args, fetch_flow, is_refspec, is_remote_name, remote_list_flow, remotes_in,
};
use crate::infra::git::working::{
    commit_flow, diff_flow, entries_in, first_dashed, log_flow, reset_flow, status_flow,
    DiffOptionsView,
};
use crate::infra::git::worktree::{
    checked_out_at, worktree_add_flow, worktree_add_impl_flow, worktree_list_flow,
    worktree_remove_flow, worktrees_in,
};
use crate::protocol::{ActionView, FlowView, HaltView, ReplyView};
use crate::text::{begins_with, decimal_of, filled_lines, holds, lines_of, trimmed};

verus! {

// ---------------------------------------------------------------------------
// Questions and replies
// ---------------------------------------------------------------------------

/// What a command printed, without the white space around it.
pub open spec fn printed(replies: Seq<ReplyView>, i: nat) -> Seq<char> {
    trimmed(replies[i as int]->Output_0.stdout)
}

/// Asking git to run a command in a directory: what follows if it succeeds, and else its
/// complaint, or that of the system where it could not be run.
pub open spec fn after_git<T>(
    dir: Seq<char>,
    args: Seq<Seq<char>>,
    replies: Seq<ReplyView>,
    at: nat,
    next: FlowView<T, DomainErrorView>,
) -> FlowView<T, DomainErrorView> {
    if at >= replies.len() {
        Err(HaltView::Ask(ActionView::Git { dir, args }))
    } else {
        match replies[at as int] {
            ReplyView::Output(o) => if o.code == Some(0i32) {
                next
            } else {
                Err(HaltView::Fail(DomainErrorView::Git(trimmed(o.stderr)), at + 1))
            },
            ReplyView::Failed(e) => Err(HaltView::Fail(DomainErrorView::Io(e), at + 1)),
            _ => Err(HaltView::Mismatch),
        }
    }
}

/// Asking a question that is answered by yes or no.
pub open spec fn after_flag<T, E>(
    question: ActionView,
    replies: Seq<ReplyView>,
    at: nat,
    yes: FlowView<T, E>,
    no: FlowView<T, E>,
) -> FlowView<T, E> {
    if at >= replies.len() {
        Err(HaltView::Ask(question))
    } else {
        match replies[at as int] {
            ReplyView::Flag(b) => if b {
                yes
            } else {
                no
            },
            _ => Err(HaltView::Mismatch),
        }
    }
}

/// A complaint of the library's own.
pub open spec fn complains<T>(message: Seq<char>, at: nat) -> FlowView<T, DomainErrorView> {
    Err(HaltView::Fail(DomainErrorView::Git(message), at))
}

// ---------------------------------------------------------------------------
// Working directories
// ---------------------------------------------------------------------------

/// A status names the branch that is checked out and every line of the short status that
/// is not empty, and calls the directory clean where there is none.
pub proof fn law_status_asks_and_tells(dir: Seq<char>, replies: Seq<ReplyView>, at: nat)
    ensures
        status_flow(dir, replies, at) == after_git(
            dir,
            seq!["branch"@, "--show-current"@],
            replies,
            at,
            after_git(
                dir,
                seq!["status"@, "--short"@],
                replies,
                at + 1,
                Ok(
                    (
                        RepoStatusView {
                            branch: printed(replies, at),
                            clean: filled_lines(printed(replies, at + 1)).len() == 0,
                            changed_files: filled_lines(printed(replies, at + 1)),
                        },
                        at + 2,
                    ),
                ),
            ),
        ),
{
}

/// The words of a diff command behind `diff` and its own flag: the range where one is
/// given, or else `--cached` where what is staged is wanted, and the paths behind `--`
/// where paths are given.
pub open spec fn chosen(
    range: Option<Seq<char>>,
    staged: bool,
    paths: Option<Seq<Seq<char>>>,
    words: Seq<Seq<char>>,
) -> bool {
    let n = if range is Some || staged {
        1int
    } else {
        0int
    };
    &&& words.len() >= n
    &&& range is Some ==> words[0] == range->0
    &&& range is None && staged ==> words[0] == "--cached"@
    &&& paths is None ==> words.len() == n
    &&& paths is Some ==> words.len() == n + 1 + paths->0.len() && words[n] == "--"@
        && words.skip(n + 1) == paths->0
}

/// Every command of a diff has the range where one is given, or else `--cached` where
/// what is staged is wanted, and ends with exactly the paths that are given, behind
/// `--`, whether or not there is a range. With names only there is one command, and its
/// answer is the diff; else the statistics are asked for first, and then the patch.
pub proof fn law_diffs_ask_for_what_is_chosen(
    dir: Seq<char>,
    opts: DiffOptionsView,
    replies: Seq<ReplyView>,
    at: nat,
)
    ensures
        diff_flow(dir, opts, replies, at) matches Err(HaltView::Ask(a)) ==> (a matches
            ActionView::Git { dir: place, args } && {
            let first = at >= replies.len();
            &&& place == dir
            &&& args.len() > 0 && args[0] == "diff"@
            &&& opts.name_only || first ==> args.len() > 1 && chosen(
                opts.commit_range,
                opts.staged,
                opts.paths,
                args.skip(2),
            )
            &&& opts.name_only ==> first && args[1] == "--name-only"@
            &&& !opts.name_only && first ==> args[1] == "--stat"@
            &&& !opts.name_only && !first ==> chosen(
                opts.commit_range,
                opts.staged,
                opts.paths,
                args.skip(1),
            )
        }),
        at >= replies.len() ==> (diff_flow(dir, opts, replies, at) matches Err(HaltView::Ask(_))),
        diff_flow(dir, opts, replies, at) matches Ok((d, n)) ==> if opts.name_only {
            n == at + 1 && d == (DiffResultView { stat: seq![], diff: printed(replies, at) })
        } else {
            n == at + 2 && d == (DiffResultView {
                stat: printed(replies, at),
                diff: printed(replies, at + 1),
            })
        },
{
    let what = match opts.commit_range {
        Some(range) => seq![range],
        None => if opts.staged {
            seq!["--cached"@]
        } else {
            seq![]
        },
    };
    let tail = match opts.paths {
        Some(paths) => what + seq!["--"@] + paths,
        None => what,
    };
    assert((seq!["diff"@, "--name-only"@] + tail).skip(2) =~= tail);
    assert((seq!["diff"@, "--stat"@] + tail).skip(2) =~= tail);
    assert((seq!["diff"@] + tail).skip(1) =~= tail);
    if let Some(paths) = opts.paths {
        assert(tail.skip(what.len() as int + 1) =~= paths);
    }
}

/// A diff whose commands succeed comes to an end, and what fails is told as it is.
pub proof fn law_diffs_end_as_git_does(
    dir: Seq<char>,
    opts: DiffOptionsView,
    replies: Seq<ReplyView>,
    at: nat,
    words: Seq<Seq<char>>,
)
    requires
        chosen(opts.commit_range, opts.staged, opts.paths, words),
    ensures
        diff_flow(dir, opts, replies, at) == if opts.name_only {
            after_git(
                dir,
                seq!["diff"@, "--name-only"@] + words,
                replies,
                at,
                Ok((DiffResultView { stat: seq![], diff: printed(replies, at) }, at + 1)),
            )
        } else {
            after_git(
                dir,
                seq!["diff"@, "--stat"@] + words,
                replies,
                at,
                after_git(
                    dir,
                    seq!["diff"@] + words,
                    replies,
                    at + 1,
                    Ok(
                        (
                            DiffResultView {
                                stat: printed(replies, at),
                                diff: printed(replies, at + 1),
                            },
                            at + 2,
                        ),
                    ),
                ),
            )
        },
{
    let what = match opts.commit_range {
        Some(range) => seq![range],
        None => if opts.staged {
            seq!["--cached"@]
        } else {
            seq![]
        },
    };
    match opts.paths {
        Some(paths) => {
            let n = what.len() as int;
            assert(words =~= words.take(n + 1) + words.skip(n + 1));
            assert(words.take(n + 1) =~= what + seq!["--"@]);
            assert(words =~= what + seq!["--"@] + paths);
        },
        None => assert(words =~= what),
    }
}

/// A log asks for at most as many commits as wanted, in the range where one is given.
pub proof fn law_logs_ask_and_tell(
    dir: Seq<char>,
    range: Option<Seq<char>>,
    max_count: u32,
    replies: Seq<ReplyView>,
    at: nat,
)
    ensures
        log_flow(dir, range, max_count, replies, at) == after_git(
            dir,
            match range {
                Some(r) => seq!["log"@, "--oneline"@, "-"@ + decimal_of(max_count as nat), r],
                None => seq!["log"@, "--oneline"@, "-"@ + decimal_of(max_count as nat)],
            },
            replies,
            at,
            Ok((entries_in(printed(replies, at), ' '), at + 1)),
        ),
{
    if let Some(r) = range {
        assert(seq!["log"@, "--oneline"@, "-"@ + decimal_of(max_count as nat)].push(r) =~= seq![
            "log"@,
            "--oneline"@,
            "-"@ + decimal_of(max_count as nat),
            r,
        ]);
    }
}

/// The first path that could be taken for an option.
pub open spec fn is_first_dashed(paths: Seq<Seq<char>>, i: int) -> bool {
    &&& 0 <= i < paths.len()
    &&& begins_with(paths[i], "-"@)
    &&& forall|j: int| 0 <= j < i ==> !begins_with(#[trigger] paths[j], "-"@)
}

/// A commit is refused for the first path that could be taken for an option, before
/// anything is asked.
pub proof fn law_the_first_dashed_path_is_named(
    dir: Seq<char>,
    message: Seq<char>,
    paths: Seq<Seq<char>>,
    replies: Seq<ReplyView>,
    at: nat,
    i: int,
)
    requires
        is_first_dashed(paths, i),
    ensures
        commit_flow(dir, message, Some(paths), replies, at) == complains::<CommitResultView>(
            "invalid path (starts with '-'): "@ + paths[i],
            at,
        ),
    decreases paths.len(),
{
    if i > 0 {
        assert(!begins_with(paths[0], "-"@));
        let rest = paths.drop_first();
        assert forall|j: int| 0 <= j < i - 1 implies !begins_with(#[trigger] rest[j], "-"@) by {
            assert(rest[j] == paths[j + 1]);
        }
        law_the_first_dashed_path_is_named(dir, message, rest, replies, at, i - 1);
    }
}

/// Where no path could be taken for an option, a commit stages what is chosen, refuses
/// where nothing is staged, and else commits with the message and asks for the new hash.
/// The files that changed are the lines of the statistics without the last one.
pub proof fn law_commits_ask_and_tell(
    dir: Seq<char>,
    message: Seq<char>,
    paths: Option<Seq<Seq<char>>>,
    replies: Seq<ReplyView>,
    at: nat,
)
    requires
        paths matches Some(ps) ==> forall|i: int|
            0 <= i < ps.len() ==> !begins_with(#[trigger] ps[i], "-"@),
    ensures
        commit_flow(dir, message, paths, replies, at) == after_git(
            dir,
            if paths is Some && paths->0.len() > 0 {
                seq!["add"@, "--"@] + paths->0
            } else {
                seq!["add"@, "-A"@]
            },
            replies,
            at,
            after_git(
                dir,
                seq!["diff"@, "--cached"@, "--stat"@],
                replies,
                at + 1,
                if printed(replies, at + 1).len() == 0 {
                    complains("nothing to commit"@, at + 2)
                } else {
                    after_git(
                        dir,
                        seq!["commit"@, "-m"@, message],
                        replies,
                        at + 2,
                        after_git(
                            dir,
                            seq!["rev-parse"@, "--short"@, "HEAD"@],
                            replies,
                            at + 3,
                            Ok(
                                (
                                    CommitResultView {
                                        hash: printed(replies, at + 3),
                                        message,
                                        files_changed: (lines_of(printed(replies, at + 1)).len()
                                            - 1) as usize,
                                    },
                                    at + 4,
                                ),
                            ),
                        ),
                    )
                },
            ),
        ),
{
    if let Some(ps) = paths {
        lemma_none_dashed(ps);
    }
    assert(printed(replies, at + 1).len() > 0 ==> lines_of(printed(replies, at + 1)).len() > 0);
}

/// Paths without a dash in front have no first one with a dash.
proof fn lemma_none_dashed(paths: Seq<Seq<char>>)
    requires
        forall|i: int| 0 <= i < paths.len() ==> !begins_with(#[trigger] paths[i], "-"@),
    ensures
        first_dashed(paths) is None,
    decreases paths.len(),
{
    if paths.len() > 0 {
        assert(!begins_with(paths[0], "-"@));
        let rest = paths.drop_first();
        assert forall|i: int| 0 <= i < rest.len() implies !begins_with(
            #[trigger] rest[i],
            "-"@,
        ) by {
            assert(rest[i] == paths[i + 1]);
        }
        lemma_none_dashed(rest);
    }
}

/// A reset with a mode other than `soft` or `mixed` is refused before anything is asked.
/// Another asks for the head, resets with the mode to the target, and asks for the head
/// again.
pub proof fn law_resets_ask_and_tell(
    dir: Seq<char>,
    mode: Seq<char>,
    target: Seq<char>,
    replies: Seq<ReplyView>,
    at: nat,
)
    ensures
        reset_flow(dir, mode, target, replies, at) == if mode != "soft"@ && mode != "mixed"@ {
            complains(
                "unsupported reset mode: "@ + mode + ". Only 'soft' and 'mixed' are allowed"@,
                at,
            )
        } else {
            after_git(
                dir,
                seq!["rev-parse"@, "--short"@, "HEAD"@],
                replies,
                at,
                after_git(
                    dir,
                    seq!["reset"@, "--"@ + mode, target],
                    replies,
                    at + 1,
                    after_git(
                        dir,
                        seq!["rev-parse"@, "--short"@, "HEAD"@],
                        replies,
                        at + 2,
                        Ok(
                            (
                                ResetResultView {
                                    previous_head: printed(replies, at),
                                    new_head: printed(replies, at + 2),
                                    mode,
                                },
                                at + 3,
                            ),
                        ),
                    ),
                ),
            )
        },
{
}

// ---------------------------------------------------------------------------
// Remotes
// ---------------------------------------------------------------------------

/// A fetch with a bad remote name or a bad refspec is refused before anything is asked,
/// the remote first. Another asks for one command: `--prune` where wanted, the remote or
/// else `origin`, and the refspec where there is one; and answers what git printed.
pub proof fn law_fetches_ask_and_tell(
    dir: Seq<char>,
    remote: Option<Seq<char>>,
    refspec: Option<Seq<char>>,
    prune: bool,
    replies: Seq<ReplyView>,
    at: nat,
)
    ensures
        fetch_flow(dir, remote, refspec, prune, replies, at) == if remote is Some
            && !is_remote_name(remote->0) {
            complains("invalid remote name: "@ + remote->0, at)
        } else if refspec is Some && !is_refspec(refspec->0) {
            complains("invalid refspec: "@ + refspec->0, at)
        } else {
            after_git(
                dir,
                seq!["fetch"@] + (if prune {
                    seq!["--prune"@]
                } else {
                    seq![]
                }) + seq![
                    if remote is Some {
                        remote->0
                    } else {
                        "origin"@
                    },
                ] + (if refspec is Some {
                    seq![refspec->0]
                } else {
                    seq![]
                }),
                replies,
                at,
                Ok((printed(replies, at), at + 1)),
            )
        },
{
    let words = seq!["fetch"@] + (if prune {
        seq!["--prune"@]
    } else {
        seq![]
    }) + seq![
        if remote is Some {
            remote->0
        } else {
            "origin"@
        },
    ] + (if refspec is Some {
        seq![refspec->0]
    } else {
        seq![]
    });
    assert(words =~= fetch_args(remote, refspec, prune));
}

/// The remotes are read from the lines that `git remote -v` prints.
pub proof fn law_remotes_are_asked_for(dir: Seq<char>, replies: Seq<ReplyView>, at: nat)
    ensures
        remote_list_flow(dir, replies, at) == after_git(
            dir,
            seq!["remote"@, "-v"@],
            replies,
            at,
            Ok((remotes_in(lines_of(printed(replies, at))), at + 1)),
        ),
{
}

// ---------------------------------------------------------------------------
// Branches and history
// ---------------------------------------------------------------------------

/// How a branch stands to a base takes four commands: the counts, those of the base
/// first; the point where the two part; the commits of the branch alone; and those of
/// the base alone. Counts that cannot be read are named in the complaint.
pub proof fn law_branch_status_asks_and_tells(
    dir: Seq<char>,
    branch: Seq<char>,
    base: Seq<char>,
    replies: Seq<ReplyView>,
    at: nat,
)
    ensures
        branch_status_flow(dir, branch, base, replies, at) == after_git(
            dir,
            seq!["rev-list"@, "--left-right"@, "--count"@, base + "..."@ + branch],
            replies,
            at,
            match counts_in(printed(replies, at)) {
                None => complains("unexpected rev-list output: "@ + printed(replies, at), at + 1),
                Some((left, right)) => after_git(
                    dir,
                    seq!["merge-base"@, base, branch],
                    replies,
                    at + 1,
                    after_git(
                        dir,
                        seq!["log"@, "--format=%H%x09%s"@, base + ".."@ + branch],
                        replies,
                        at + 2,
                        after_git(
                            dir,
                            seq!["log"@, "--format=%H%x09%s"@, branch + ".."@ + base],
                            replies,
                            at + 3,
                            Ok(
                                (
                                    BranchStatusView {
                                        ahead: right,
                                        behind: left,
                                        up_to_date: left == 0 && right == 0,
                                        ahead_commits: entries_in(printed(replies, at + 2), '\t'),
                                        behind_commits: entries_in(printed(replies, at + 3), '\t'),
                                        common_ancestor: printed(replies, at + 1),
                                    },
                                    at + 4,
                                ),
                            ),
                        ),
                    ),
                ),
            },
        ),
{
}

/// The common ancestor of a branch and a base is what `git merge-base` printed when it
/// was asked for the two, whatever the counts are.
pub proof fn law_common_ancestor_is_where_they_part(
    dir: Seq<char>,
    branch: Seq<char>,
    base: Seq<char>,
    counts: ReplyView,
    fork: ReplyView,
    ours: ReplyView,
    theirs: ReplyView,
)
    ensures
        branch_status_flow(dir, branch, base, seq![counts, fork, ours, theirs], 0) matches Ok((
            status,
            _,
        )) ==> {
            &&& fork matches ReplyView::Output(o) && status.common_ancestor == trimmed(o.stdout)
            &&& branch_status_flow(dir, branch, base, seq![counts], 0) matches Err(
                HaltView::Ask(a),
            ) && a == (ActionView::Git { dir, args: seq!["merge-base"@, base, branch] })
        },
{
}

/// The commits that are not pushed are those of the branch that the branch of the same
/// name at the remote has not.
pub proof fn law_unpushed_commits_ask_and_tell(
    dir: Seq<char>,
    branch: Seq<char>,
    remote: Seq<char>,
    replies: Seq<ReplyView>,
    at: nat,
)
    ensures
        unpushed_flow(dir, branch, remote, replies, at) == after_git(
            dir,
            seq!["rev-parse"@, remote + "/"@ + branch],
            replies,
            at,
            after_git(
                dir,
                seq!["log"@, "--format=%H%x09%s"@, remote + "/"@ + branch + ".."@ + branch],
                replies,
                at + 1,
                Ok(
                    (
                        UnpushedCommitsView {
                            commits: entries_in(printed(replies, at + 1), '\t'),
                            count: entries_in(printed(replies, at + 1), '\t').len() as u32,
                            remote_head: printed(replies, at),
                        },
                        at + 2,
                    ),
                ),
            ),
        ),
{
}

/// Whether a commit is pushed is asked of the refs of the given remote, with the given
/// commit: the refs are those that git names, and the commit is pushed where there is
/// one.
pub proof fn law_is_pushed_asks_the_remote(
    dir: Seq<char>,
    commit: Seq<char>,
    remote: Seq<char>,
    replies: Seq<ReplyView>,
    at: nat,
)
    ensures
        is_pushed_flow(dir, commit, remote, replies, at) == after_git(
            dir,
            seq![
                "for-each-ref"@,
                "--contains"@,
                commit,
                "--format=%(refname)"@,
                "refs/remotes/"@ + remote + "/"@,
            ],
            replies,
            at,
            Ok(
                (
                    IsPushedResultView {
                        pushed: filled_lines(printed(replies, at)).len() > 0,
                        refs: filled_lines(printed(replies, at)),
                    },
                    at + 1,
                ),
            ),
        ),
{
}

/// Whether a tag is pushed is asked of the remote itself.
pub proof fn law_tag_pushed_asks_the_remote(
    dir: Seq<char>,
    tag: Seq<char>,
    remote: Seq<char>,
    replies: Seq<ReplyView>,
    at: nat,
)
    ensures
        tag_pushed_flow(dir, tag, remote, replies, at) == after_git(
            dir,
            seq!["ls-remote"@, "--tags"@, remote, "refs/tags/"@ + tag],
            replies,
            at,
            Ok(
                (
                    TagPushStatusView {
                        pushed: second_fields(filled_lines(printed(replies, at))).len() > 0,
                        remote_refs: second_fields(filled_lines(printed(replies, at))),
                    },
                    at + 1,
                ),
            ),
        ),
{
}

/// A walk asks for one commit more than its steps, from the start along first parents,
/// and is too short where git knows fewer.
pub proof fn law_walks_ask_and_tell(
    dir: Seq<char>,
    steps: u32,
    from: Seq<char>,
    replies: Seq<ReplyView>,
    at: nat,
)
    ensures
        ({
            let lines = filled_lines(printed(replies, at));
            let known: nat = if lines.len() > 0 {
                (lines.len() - 1) as nat
            } else {
                0
            };
            reset_target_flow(dir, steps, from, replies, at) == after_git(
                dir,
                seq![
                    "log"@,
                    "--first-parent"@,
                    "--format=%H%x09%P%x09%s"@,
                    "-n"@,
                    decimal_of((steps + 1) as nat),
                    from,
                ],
                replies,
                at,
                match target_in(lines, steps) {
                    Ok(target) => Ok((target, at + 1)),
                    Err(_) => complains(
                        "history too shallow: requested "@ + decimal_of(steps as nat)
                            + " steps, only "@ + decimal_of(known) + " commits reachable"@,
                        at + 1,
                    ),
                },
            )
        }),
{
}

/// The state of a working directory once the distance to its upstream is known: what is
/// not committed are the lines of the status.
pub open spec fn state_with(
    dir: Seq<char>,
    tracking: Option<Seq<char>>,
    ahead: u32,
    behind: u32,
    replies: Seq<ReplyView>,
    at: nat,
) -> FlowView<WorktreeStateView, DomainErrorView> {
    let changes = filled_lines(printed(replies, at)).len();
    after_git(
        dir,
        seq!["status"@, "--porcelain"@],
        replies,
        at,
        Ok(
            (
                WorktreeStateView {
                    clean: changes == 0,
                    ahead,
                    behind,
                    tracking,
                    uncommitted: if changes <= u32::MAX {
                        changes as u32
                    } else {
                        u32::MAX
                    },
                },
                at + 1,
            ),
        ),
    )
}

/// The state of a working directory once the branch is known: the upstream is asked
/// for, where git has none there is no distance, and else the distance is that of the
/// branch to it.
pub open spec fn state_from(
    dir: Seq<char>,
    branch: Seq<char>,
    replies: Seq<ReplyView>,
    at: nat,
) -> FlowView<WorktreeStateView, DomainErrorView> {
    if at >= replies.len() {
        Err(
            HaltView::Ask(
                ActionView::Git {
                    dir,
                    args: seq!["rev-parse"@, "--abbrev-ref"@, "@{upstream}"@],
                },
            ),
        )
    } else {
        match replies[at as int] {
            ReplyView::Output(o) => if o.code == Some(128i32) || (o.code == Some(0i32) && trimmed(
                o.stdout,
            ).len() == 0) {
                state_with(dir, None, 0, 0, replies, at + 1)
            } else if o.code == Some(0i32) {
                match branch_status_flow(dir, branch, trimmed(o.stdout), replies, at + 1) {
                    Ok((s, n)) => state_with(
                        dir,
                        Some(trimmed(o.stdout)),
                        s.ahead,
                        s.behind,
                        replies,
                        n,
                    ),
                    Err(h) => Err(h),
                }
            } else {
                complains(trimmed(o.stderr), at + 1)
            },
            ReplyView::Failed(e) => Err(HaltView::Fail(DomainErrorView::Io(e), at + 1)),
            _ => Err(HaltView::Mismatch),
        }
    }
}

/// The state of a working directory is that of the branch that is given, or else of the
/// branch that is checked out.
pub proof fn law_state_asks_and_tells(
    dir: Seq<char>,
    branch: Option<Seq<char>>,
    replies: Seq<ReplyView>,
    at: nat,
)
    ensures
        worktree_state_flow(dir, branch, replies, at) == match branch {
            Some(b) => state_from(dir, b, replies, at),
            None => after_git(
                dir,
                seq!["branch"@, "--show-current"@],
                replies,
                at,
                state_from(dir, printed(replies, at), replies, at + 1),
            ),
        },
{
}

// ---------------------------------------------------------------------------
// Worktrees
// ---------------------------------------------------------------------------

/// The path of the repository stands as it is where it starts at the root, and else is
/// made absolute; where that gives no absolute path, the repository is named.
pub proof fn law_homes_are_absolute(repo: Seq<char>, replies: Seq<ReplyView>, at: nat)
    ensures
        home_flow(repo, replies, at) == if repo.len() > 0 && repo[0] == '/' {
            Ok((repo, at))
        } else if at >= replies.len() {
            Err(HaltView::Ask(ActionView::MakeAbsolute { path: repo }))
        } else {
            match replies[at as int] {
                ReplyView::Path(home) => if is_absolute(home) {
                    Ok((home, at + 1))
                } else {
                    complains("no absolute path for repo "@ + repo + ": "@ + home, at + 1)
                },
                ReplyView::Failed(e) => Err(HaltView::Fail(DomainErrorView::Io(e), at + 1)),
                _ => Err(HaltView::Mismatch),
            }
        },
{
}

/// The worktrees are read from the porcelain list.
pub proof fn law_worktrees_are_asked_for(repo: Seq<char>, replies: Seq<ReplyView>, at: nat)
    ensures
        worktree_list_flow(repo, replies, at) == after_git(
            repo,
            seq!["worktree"@, "list"@, "--porcelain"@],
            replies,
            at,
            Ok((worktrees_in(printed(replies, at)), at + 1)),
        ),
{
}

/// Removing looks whether something is at the path of the worktree, and then has git
/// remove it by force.
pub proof fn law_removals_ask_and_tell(
    repo: Seq<char>,
    name: Seq<char>,
    replies: Seq<ReplyView>,
    at: nat,
)
    ensures
        worktree_remove_flow(repo, name, replies, at) == after_flag(
            ActionView::PathExists { path: worktree_path_of(repo, name) },
            replies,
            at,
            after_git(
                repo,
                seq!["worktree"@, "remove"@, "--force"@, worktree_path_of(repo, name)],
                replies,
                at + 1,
                Ok(((), at + 2)),
            ),
            Err(HaltView::Fail(DomainErrorView::WorktreeNotFound(name), at + 1)),
        ),
{
}

/// Making the branch, from the base or else from the head, and then the worktree.
pub open spec fn made_from(
    repo: Seq<char>,
    path: Seq<char>,
    branch: Seq<char>,
    base: Option<Seq<char>>,
    replies: Seq<ReplyView>,
    at: nat,
) -> FlowView<Seq<char>, DomainErrorView> {
    after_git(
        repo,
        match base {
            Some(b) => seq!["branch"@, branch, b],
            None => seq!["branch"@, branch],
        },
        replies,
        at,
        after_git(
            repo,
            seq!["worktree"@, "add"@, path, branch],
            replies,
            at + 1,
            Ok((path, at + 2)),
        ),
    )
}

/// The check of the base, where there is one and the check is not waived: the worktrees
/// are listed, and where one has the base checked out, the first that does must be
/// clean.
pub open spec fn made_after_check(
    repo: Seq<char>,
    path: Seq<char>,
    branch: Seq<char>,
    base: Option<Seq<char>>,
    allow_dirty: bool,
    replies: Seq<ReplyView>,
    at: nat,
) -> FlowView<Seq<char>, DomainErrorView> {
    if base is None || allow_dirty {
        made_from(repo, path, branch, base, replies, at)
    } else {
        let worktrees = worktrees_in(printed(replies, at));
        let k = checked_out_at(worktrees, base->0) as int;
        after_git(
            repo,
            seq!["worktree"@, "list"@, "--porcelain"@],
            replies,
            at,
            if k < worktrees.len() {
                after_git(
                    worktrees[k].path,
                    seq!["status"@, "--porcelain"@],
                    replies,
                    at + 1,
                    if trimmed(printed(replies, at + 1)).len() > 0 {
                        complains(
                            "base_branch has uncommitted changes: "@ + base->0 + " at "@
                                + worktrees[k].path,
                            at + 2,
                        )
                    } else {
                        made_from(repo, path, branch, base, replies, at + 2)
                    },
                )
            } else {
                made_from(repo, path, branch, base, replies, at + 1)
            },
        )
    }
}

/// Adding a worktree refuses where something is at its path, then where the branch is
/// there, then where the base is not clean; and only then makes the branch and the
/// worktree.
pub proof fn law_additions_ask_and_tell(
    repo: Seq<char>,
    name: Seq<char>,
    branch: Seq<char>,
    base: Option<Seq<char>>,
    allow_dirty: bool,
    replies: Seq<ReplyView>,
    at: nat,
)
    ensures
        worktree_add_impl_flow(repo, name, branch, base, allow_dirty, replies, at) == match
            home_flow(repo, replies, at) {
            Ok((home, n)) => {
                let path = worktree_path_of(home, name);
                let show = seq![
                    "show-ref"@,
                    "--verify"@,
                    "--quiet"@,
                    "refs/heads/"@ + branch,
                ];
                after_flag(
                    ActionView::PathExists { path },
                    replies,
                    n,
                    Err(HaltView::Fail(DomainErrorView::WorktreeAlreadyExists(name), n + 1)),
                    if n + 1 >= replies.len() {
                        Err(HaltView::Ask(ActionView::Git { dir: repo, args: show }))
                    } else {
                        match replies[n as int + 1] {
                            ReplyView::Output(o) => if o.code == Some(0i32) {
                                complains("branch already exists: "@ + branch, n + 2)
                            } else {
                                made_after_check(
                                    repo,
                                    path,
                                    branch,
                                    base,
                                    allow_dirty,
                                    replies,
                                    n + 2,
                                )
                            },
                            ReplyView::Failed(e) => Err(
                                HaltView::Fail(DomainErrorView::Io(e), n + 2),
                            ),
                            _ => Err(HaltView::Mismatch),
                        }
                    },
                )
            },
            Err(h) => Err(h),
        },
{
}

/// The check of the base is waived by the values `1`, `true` and `yes` of the variable
/// `GIT_WORKFLOW_ALLOW_DIRTY_BASE`, and by no others.
pub proof fn law_only_the_variable_waives_the_check(
    repo: Seq<char>,
    name: Seq<char>,
    branch: Seq<char>,
    base: Option<Seq<char>>,
    replies: Seq<ReplyView>,
    at: nat,
)
    ensures
        worktree_add_flow(repo, name, branch, base, replies, at) == if at >= replies.len() {
            Err(
                HaltView::Ask(
                    ActionView::ReadVariable { name: "GIT_WORKFLOW_ALLOW_DIRTY_BASE"@ },
                ),
            )
        } else {
            match replies[at as int] {
                ReplyView::Variable(v) => worktree_add_impl_flow(
                    repo,
                    name,
                    branch,
                    base,
                    v is Some && (v->0 == "1"@ || v->0 == "true"@ || v->0 == "yes"@),
                    replies,
                    at + 1,
                ),
                _ => Err(HaltView::Mismatch),
            }
        },
{
}

/// The worktree whose state counts for the base is the first that has it checked out.
pub proof fn law_the_first_checkout_counts(
    worktrees: Seq<WorktreeView>,
    branch: Seq<char>,
)
    ensures
        ({
            let k = checked_out_at(worktrees, branch) as int;
            &&& k <= worktrees.len()
            &&& k < worktrees.len() ==> worktrees[k].branch == Some(branch)
            &&& forall|j: int| 0 <= j < k ==> #[trigger] worktrees[j].branch != Some(branch)
        }),
    decreases worktrees.len(),
{
    if worktrees.len() > 0 && worktrees[0].branch != Some(branch) {
        let rest = worktrees.drop_first();
        law_the_first_checkout_counts(rest, branch);
        assert forall|j: int|
            0 <= j < checked_out_at(worktrees, branch) implies #[trigger] worktrees[j].branch
            != Some(branch) by {
            if j > 0 {
                assert(rest[j - 1] == worktrees[j]);
            }
        }
    }
}

// ---------------------------------------------------------------------------
// Deleting and merging
// ---------------------------------------------------------------------------

/// Whether the directory is one, where a directory is given.
pub open spec fn after_directory<T>(
    working_dir: Option<Seq<char>>,
    replies: Seq<ReplyView>,
    at: nat,
    next: FlowView<T, DomainErrorView>,
) -> FlowView<T, DomainErrorView> {
    match working_dir {
        Some(path) => after_flag(
            ActionView::IsDirectory { path },
            replies,
            at,
            next,
            complains("working_dir does not exist or is not a directory: "@ + path, at + 1),
        ),
        None => next,
    }
}

/// A merge runs in the directory that is given, or else in the repository. It is
/// refused where another branch than the named one is checked out there, and else always
/// makes a commit of its own.
pub proof fn law_merges_ask_and_tell(
    repo: Seq<char>,
    branch: Seq<char>,
    into_branch: Seq<char>,
    working_dir: Option<Seq<char>>,
    replies: Seq<ReplyView>,
    at: nat,
)
    ensures
        ({
            let dir = if working_dir is Some {
                working_dir->0
            } else {
                repo
            };
            let n = if working_dir is Some {
                at + 1
            } else {
                at
            };
            merge_flow(repo, branch, into_branch, working_dir, replies, at) == after_directory(
                working_dir,
                replies,
                at,
                after_git(
                    dir,
                    seq!["branch"@, "--show-current"@],
                    replies,
                    n,
                    if printed(replies, n) != into_branch {
                        complains(
                            "must be on branch '"@ + into_branch + "' to merge, currently on '"@
                                + printed(replies, n) + "'"@,
                            n + 1,
                        )
                    } else {
                        after_git(
                            dir,
                            seq!["merge"@, branch, "--no-ff"@, "-m"@, "merge: "@ + branch],
                            replies,
                            n + 1,
                            Ok(
                                (
                                    MergeResultView {
                                        merged_branch: branch,
                                        into_branch,
                                        summary: printed(replies, n + 1),
                                    },
                                    n + 2,
                                ),
                            ),
                        )
                    },
                ),
            )
        }),
{
}

/// Asking for the one absolute form of a path, which stands in a complaint as `what`.
pub open spec fn after_path<T>(
    what: Seq<char>,
    path: Seq<char>,
    replies: Seq<ReplyView>,
    at: nat,
    next: FlowView<T, DomainErrorView>,
) -> FlowView<T, DomainErrorView> {
    if at >= replies.len() {
        Err(HaltView::Ask(ActionView::Canonicalize { path }))
    } else {
        match replies[at as int] {
            ReplyView::Path(_) => next,
            ReplyView::Failed(e) => complains(
                "failed to canonicalize "@ + what + " "@ + path + ": "@ + e,
                at + 1,
            ),
            _ => Err(HaltView::Mismatch),
        }
    }
}

/// A directory is known where it is the repository itself, or else where it is one of
/// the worktrees that git lists.
pub proof fn law_known_directories_are_listed(
    repo: Seq<char>,
    dir: Seq<char>,
    replies: Seq<ReplyView>,
    at: nat,
)
    ensures
        known_dir_flow(repo, dir, replies, at) == after_path(
            "working_dir"@,
            dir,
            replies,
            at,
            after_path(
                "repo"@,
                repo,
                replies,
                at + 1,
                if replies[at as int] == replies[at as int + 1] {
                    Ok(((), at + 2))
                } else {
                    after_git(
                        repo,
                        seq!["worktree"@, "list"@, "--porcelain"@],
                        replies,
                        at + 2,
                        match among_flow(
                            worktrees_in(printed(replies, at + 2)),
                            replies[at as int]->Path_0,
                            replies,
                            at + 3,
                        ) {
                            Ok((true, n)) => Ok(((), n)),
                            Ok((false, n)) => complains(
                                "working_dir is neither repo root nor a known worktree of "@ + repo
                                    + ": "@ + dir,
                                n,
                            ),
                            Err(h) => Err(h),
                        },
                    )
                },
            ),
        ),
{
}

/// The worktrees are looked through in their order, each by its one absolute form, until
/// one is the directory that is looked for; one that has no such form is passed over.
pub proof fn law_worktrees_are_looked_through(
    worktrees: Seq<WorktreeView>,
    target: Seq<char>,
    replies: Seq<ReplyView>,
    at: nat,
    k: nat,
)
    requires
        k <= worktrees.len(),
        at + k <= replies.len(),
        forall|i: int|
            at <= i < at + k ==> {
                &&& #[trigger] replies[i] is Path || replies[i] is Failed
                &&& replies[i] != ReplyView::Path(target)
            },
    ensures
        k == worktrees.len() ==> among_flow(worktrees, target, replies, at) == Ok::<
            _,
            HaltView<DomainErrorView>,
        >((false, at + k)),
        k < worktrees.len() && at + k == replies.len() ==> among_flow(
            worktrees,
            target,
            replies,
            at,
        ) == Err::<(bool, nat), HaltView<DomainErrorView>>(
            HaltView::Ask(ActionView::Canonicalize { path: worktrees[k as int].path }),
        ),
        k < worktrees.len() && at + k < replies.len() && replies[at as int + k]
            == ReplyView::Path(target)
            ==> among_flow(worktrees, target, replies, at) == Ok::<_, HaltView<DomainErrorView>>(
            (true, at + k + 1),
        ),
    decreases worktrees.len(),
{
    if k > 0 {
        assert(replies[at as int] is Path || replies[at as int] is Failed);
        law_worktrees_are_looked_through(
            worktrees.drop_first(),
            target,
            replies,
            at + 1,
            (k - 1) as nat,
        );
    }
}

/// A deletion runs in the directory that is given, where it is a directory that belongs
/// to the repository, or else in the repository, and is never forced. Where git does not
/// find the branch, the branch is named.
pub proof fn law_deletions_ask_and_tell(
    repo: Seq<char>,
    branch: Seq<char>,
    working_dir: Option<Seq<char>>,
    replies: Seq<ReplyView>,
    at: nat,
)
    ensures
        ({
            let dir = if working_dir is Some {
                working_dir->0
            } else {
                repo
            };
            let delete = seq!["branch"@, "-d"@, branch];
            let checked = match working_dir {
                Some(wd) => known_dir_flow(repo, wd, replies, at + 1),
                None => Ok(((), at)),
            };
            branch_delete_flow(repo, branch, working_dir, replies, at) == after_directory(
                working_dir,
                replies,
                at,
                match checked {
                    Ok((_, n)) => if n < replies.len() && (replies[n as int] matches
                        ReplyView::Output(o) && o.code != Some(0i32) && holds(
                        trimmed(o.stderr),
                        "not found"@,
                    )) {
                        Err(HaltView::Fail(DomainErrorView::BranchNotFound(branch), n + 1))
                    } else {
                        after_git(dir, delete, replies, n, Ok(((), n + 1)))
                    },
                    Err(h) => Err(h),
                },
            )
        }),
{
}

} // verus!
