//! The operations on a working directory: status, diff, log, commit, reset.

use vstd::prelude::*;
use vstd::string::*;
use crate::domain::error::{DomainError, DomainErrorView};
use crate::domain::worktree::{
    CommitResult, CommitResultView, DiffResult, DiffResultView, LogEntry, LogEntryView, RepoStatus,
    RepoStatusView, ResetResult, ResetResultView,
};
use crate::protocol::{
    flow_view, git_text, run_git, Flow, FlowView, Halt, HaltView, Reply, ReplyView,
};
use crate::text::{
    append, begins_with, copy_all, decimal, decimal_of, filled_lines, lines, lines_of,
    nonempty_lines, parted, same, split_once, starts_with, words2, words3,
};

verus! {

// ---------------------------------------------------------------------------
// Status
// ---------------------------------------------------------------------------

/// The status, from the branch and from what `git status --short` prints.
pub open spec fn status_of(branch: Seq<char>, short: Seq<char>) -> RepoStatusView {
    RepoStatusView {
        branch,
        clean: filled_lines(short).len() == 0,
        changed_files: filled_lines(short),
    }
}

/// The status of a working directory: ask for the branch, then for the changed files.
pub open spec fn status_flow(dir: Seq<char>, replies: Seq<ReplyView>, at: nat) -> FlowView<
    RepoStatusView,
    DomainErrorView,
> {
    match git_text(dir, seq!["branch"@, "--show-current"@], replies, at) {
        Ok((branch, n)) => match git_text(dir, seq!["status"@, "--short"@], replies, n) {
            Ok((short, n)) => Ok((status_of(branch, short), n)),
            Err(h) => Err(h),
        },
        Err(h) => Err(h),
    }
}

/// The status of a working directory.
pub fn status(working_dir: &str, replies: &[Reply], at: usize) -> (r: Flow<RepoStatus, DomainError>)
    ensures
        flow_view(r) == status_flow(working_dir@, replies.deep_view(), at as nat),
{
    let (branch, at) = run_git(working_dir, words2("branch", "--show-current"), replies, at)?;
    let (short, at) = run_git(working_dir, words2("status", "--short"), replies, at)?;
    let changed_files = nonempty_lines(short.as_str());
    let clean = changed_files.is_empty();
    Ok((RepoStatus { branch, clean, changed_files }, at))
}

// ---------------------------------------------------------------------------
// Diff
// ---------------------------------------------------------------------------

/// What to compare and how to show it.
#[derive(Debug)]
pub struct DiffOptions {
    /// Compare what is staged. A commit range goes before it.
    pub staged: bool,
    pub commit_range: Option<String>,
    /// Look at these paths alone.
    pub paths: Option<Vec<String>>,
    /// Show the names of the changed files and nothing else.
    pub name_only: bool,
}

/// [`DiffOptions`] over character sequences.
pub struct DiffOptionsView {
    pub staged: bool,
    pub commit_range: Option<Seq<char>>,
    pub paths: Option<Seq<Seq<char>>>,
    pub name_only: bool,
}

impl DeepView for DiffOptions {
    type V = DiffOptionsView;

    open spec fn deep_view(&self) -> DiffOptionsView {
        DiffOptionsView {
            staged: self.staged,
            commit_range: self.commit_range.deep_view(),
            paths: self.paths.deep_view(),
            name_only: self.name_only,
        }
    }
}

impl Default for DiffOptions {
    fn default() -> (r: Self)
        ensures
            r.deep_view() == (DiffOptionsView {
                staged: false,
                commit_range: None,
                paths: None,
                name_only: false,
            }),
    {
        DiffOptions { staged: false, commit_range: None, paths: None, name_only: false }
    }
}

/// The arguments that say what to compare: the range or else, for what is staged,
/// `--cached`; then the paths behind `--`.
pub open spec fn selection(opts: DiffOptionsView) -> Seq<Seq<char>> {
    let what = match opts.commit_range {
        Some(range) => seq![range],
        None => if opts.staged {
            seq!["--cached"@]
        } else {
            seq![]
        },
    };
    match opts.paths {
        Some(paths) => what + seq!["--"@] + paths,
        None => what,
    }
}

/// Comparing: the names alone, or the summary and then the patch.
pub open spec fn diff_flow(
    dir: Seq<char>,
    opts: DiffOptionsView,
    replies: Seq<ReplyView>,
    at: nat,
) -> FlowView<DiffResultView, DomainErrorView> {
    if opts.name_only {
        match git_text(dir, seq!["diff"@, "--name-only"@] + selection(opts), replies, at) {
            Ok((names, n)) => Ok((DiffResultView { stat: seq![], diff: names }, n)),
            Err(h) => Err(h),
        }
    } else {
        match git_text(dir, seq!["diff"@, "--stat"@] + selection(opts), replies, at) {
            Ok((stat, n)) => match git_text(dir, seq!["diff"@] + selection(opts), replies, n) {
                Ok((diff, n)) => Ok((DiffResultView { stat, diff }, n)),
                Err(h) => Err(h),
            },
            Err(h) => Err(h),
        }
    }
}

/// `args` with the arguments behind them that say what to compare.
fn select(mut args: Vec<String>, opts: &DiffOptions) -> (r: Vec<String>)
    ensures
        r.deep_view() == args.deep_view() + selection(opts.deep_view()),
{
    let ghost given = args.deep_view();
    if let Some(range) = &opts.commit_range {
        append(&mut args, range.clone());
    } else if opts.staged {
        append(&mut args, "--cached".to_string());
    }
    let ghost what = match opts.deep_view().commit_range {
        Some(range) => seq![range],
        None => if opts.staged {
            seq!["--cached"@]
        } else {
            seq![]
        },
    };
    assert(args.deep_view() =~= given + what);
    if let Some(paths) = &opts.paths {
        append(&mut args, "--".to_string());
        let ghost ps = paths.deep_view();
        let mut i: usize = 0;
        assert(args.deep_view() =~= given + (what + seq!["--"@] + ps.take(0)));
        while i < paths.len()
            invariant
                ps == paths.deep_view(),
                i <= paths@.len(),
                args.deep_view() == given + (what + seq!["--"@] + ps.take(i as int)),
            decreases paths@.len() - i,
        {
            append(&mut args, paths[i].clone());
            i += 1;
            assert(args.deep_view() =~= given + (what + seq!["--"@] + ps.take(i as int)));
        }
        assert(ps.take(i as int) =~= ps);
    }
    args
}

/// Compares.
pub fn diff(working_dir: &str, opts: &DiffOptions, replies: &[Reply], at: usize) -> (r: Flow<
    DiffResult,
    DomainError,
>)
    ensures
        flow_view(r) == diff_flow(
            working_dir@,
            opts.deep_view(),
            replies.deep_view(),
            at as nat,
        ),
{
    if opts.name_only {
        let args = select(words2("diff", "--name-only"), opts);
        let (names, at) = run_git(working_dir, args, replies, at)?;
        let stat = String::new();
        Ok((DiffResult { stat, diff: names }, at))
    } else {
        let args = select(words2("diff", "--stat"), opts);
        let (stat, at) = run_git(working_dir, args, replies, at)?;
        let mut first: Vec<String> = Vec::new();
        first.push("diff".to_string());
        assert(first.deep_view() =~= seq!["diff"@]);
        let args = select(first, opts);
        let (diff, at) = run_git(working_dir, args, replies, at)?;
        Ok((DiffResult { stat, diff }, at))
    }
}

// ---------------------------------------------------------------------------
// Log
// ---------------------------------------------------------------------------

/// The commit that a line tells of: the hash, the separator, the message. A line
/// without the separator is all hash.
pub open spec fn entry_of(line: Seq<char>, sep: char) -> LogEntryView {
    match parted(line, sep) {
        Some((hash, message)) => LogEntryView { hash, message },
        None => LogEntryView { hash: line, message: seq![] },
    }
}

/// The commits that the lines of `raw` tell of.
pub open spec fn entries_in(raw: Seq<char>, sep: char) -> Seq<LogEntryView> {
    filled_lines(raw).map_values(|line: Seq<char>| entry_of(line, sep))
}

/// Reads the commits that the lines of `raw` tell of.
pub fn parse_entries(raw: &str, sep: char) -> (r: Vec<LogEntry>)
    ensures
        r.deep_view() == entries_in(raw@, sep),
{
    let all = nonempty_lines(raw);
    let ghost ls = all.deep_view();
    let mut r: Vec<LogEntry> = Vec::new();
    let mut i: usize = 0;
    while i < all.len()
        invariant
            ls == all.deep_view(),
            ls == filled_lines(raw@),
            i <= all@.len(),
            r.deep_view() == entries_in(raw@, sep).take(i as int),
        decreases all@.len() - i,
    {
        let line = all[i].as_str();
        let entry = match split_once(line, sep) {
            Some((hash, message)) => LogEntry { hash, message },
            None => LogEntry { hash: line.to_string(), message: String::new() },
        };
        assert(entry.deep_view() == entry_of(ls[i as int], sep));
        append(&mut r, entry);
        i += 1;
        assert(r.deep_view() =~= entries_in(raw@, sep).take(i as int));
    }
    assert(entries_in(raw@, sep).take(i as int) =~= entries_in(raw@, sep));
    r
}

/// The command that shows the log.
pub open spec fn log_args(range: Option<Seq<char>>, max_count: u32) -> Seq<Seq<char>> {
    let args = seq!["log"@, "--oneline"@, "-"@ + decimal_of(max_count as nat)];
    match range {
        Some(r) => args.push(r),
        None => args,
    }
}

/// The last commits, `max_count` at most.
pub open spec fn log_flow(
    dir: Seq<char>,
    range: Option<Seq<char>>,
    max_count: u32,
    replies: Seq<ReplyView>,
    at: nat,
) -> FlowView<Seq<LogEntryView>, DomainErrorView> {
    match git_text(dir, log_args(range, max_count), replies, at) {
        Ok((raw, n)) => Ok((entries_in(raw, ' '), n)),
        Err(h) => Err(h),
    }
}

/// The last commits, `max_count` at most.
pub fn log(
    working_dir: &str,
    range: Option<&str>,
    max_count: u32,
    replies: &[Reply],
    at: usize,
) -> (r: Flow<Vec<LogEntry>, DomainError>)
    ensures
        flow_view(r) == log_flow(
            working_dir@,
            range.deep_view(),
            max_count,
            replies.deep_view(),
            at as nat,
        ),
{
    let count = "-".to_string().concat(decimal(max_count as u64).as_str());
    let mut args = words3("log", "--oneline", count.as_str());
    if let Some(r) = range {
        append(&mut args, r.to_string());
    }
    let (raw, at) = run_git(working_dir, args, replies, at)?;
    Ok((parse_entries(raw.as_str(), ' '), at))
}

// ---------------------------------------------------------------------------
// Commit
// ---------------------------------------------------------------------------

/// The first path that git would take for an option.
pub open spec fn first_dashed(paths: Seq<Seq<char>>) -> Option<Seq<char>>
    decreases paths.len(),
{
    if paths.len() == 0 {
        None
    } else if begins_with(paths[0], "-"@) {
        Some(paths[0])
    } else {
        first_dashed(paths.drop_first())
    }
}

/// The command that stages: the paths where there are any, or else everything.
pub open spec fn add_args(paths: Option<Seq<Seq<char>>>) -> Seq<Seq<char>> {
    match paths {
        Some(ps) => if ps.len() > 0 {
            seq!["add"@, "--"@] + ps
        } else {
            seq!["add"@, "-A"@]
        },
        None => seq!["add"@, "-A"@],
    }
}

/// The number of files in a diff summary: its lines but for the last.
pub open spec fn files_in(stat: Seq<char>) -> int {
    if lines_of(stat).len() > 0 {
        lines_of(stat).len() - 1
    } else {
        0
    }
}

/// Committing: stage, make sure that something is staged, commit, and ask for the
/// new head.
pub open spec fn commit_flow(
    dir: Seq<char>,
    message: Seq<char>,
    paths: Option<Seq<Seq<char>>>,
    replies: Seq<ReplyView>,
    at: nat,
) -> FlowView<CommitResultView, DomainErrorView> {
    let dashed = match paths {
        Some(ps) => first_dashed(ps),
        None => None,
    };
    match dashed {
        Some(path) => {
            let complaint = "invalid path (starts with '-'): "@ + path;
            Err(HaltView::Fail(DomainErrorView::Git(complaint), at))
        },
        None => match git_text(dir, add_args(paths), replies, at) {
            Ok((_, n)) => staged_flow(dir, message, replies, n),
            Err(h) => Err(h),
        },
    }
}

/// Committing what is staged.
pub open spec fn staged_flow(
    dir: Seq<char>,
    message: Seq<char>,
    replies: Seq<ReplyView>,
    at: nat,
) -> FlowView<CommitResultView, DomainErrorView> {
    match git_text(dir, seq!["diff"@, "--cached"@, "--stat"@], replies, at) {
        Ok((staged, n)) => if staged.len() == 0 {
            Err(HaltView::Fail(DomainErrorView::Git("nothing to commit"@), n))
        } else {
            match git_text(dir, seq!["commit"@, "-m"@, message], replies, n) {
                Ok((_, n)) => match git_text(
                    dir,
                    seq!["rev-parse"@, "--short"@, "HEAD"@],
                    replies,
                    n,
                ) {
                    Ok((hash, n)) => Ok(
                        (
                            CommitResultView {
                                hash,
                                message,
                                files_changed: files_in(staged) as usize,
                            },
                            n,
                        ),
                    ),
                    Err(h) => Err(h),
                },
                Err(h) => Err(h),
            }
        },
        Err(h) => Err(h),
    }
}

/// The first path that git would take for an option.
fn find_dashed(paths: &[String]) -> (r: Option<String>)
    ensures
        r.deep_view() == first_dashed(paths.deep_view()),
{
    let ghost ps = paths.deep_view();
    let mut i: usize = 0;
    assert(ps.skip(0) =~= ps);
    while i < paths.len()
        invariant
            ps == paths.deep_view(),
            i <= paths@.len(),
            first_dashed(ps) == first_dashed(ps.skip(i as int)),
        decreases paths@.len() - i,
    {
        assert(ps.skip(i as int)[0] == paths@[i as int]@);
        assert(ps.skip(i as int).drop_first() =~= ps.skip(i + 1));
        if starts_with(paths[i].as_str(), "-") {
            return Some(paths[i].clone());
        }
        i += 1;
    }
    None
}

/// Commits.
pub fn commit(
    working_dir: &str,
    message: &str,
    paths: Option<&[String]>,
    replies: &[Reply],
    at: usize,
) -> (r: Flow<CommitResult, DomainError>)
    ensures
        flow_view(r) == commit_flow(
            working_dir@,
            message@,
            paths.deep_view(),
            replies.deep_view(),
            at as nat,
        ),
{
    let mut args: Vec<String> = words2("add", "-A");
    if let Some(ps) = paths {
        if let Some(path) = find_dashed(ps) {
            let complaint = "invalid path (starts with '-'): ".to_string().concat(path.as_str());
            return Err(Halt::Fail(DomainError::Git(complaint), at));
        }
        if !ps.is_empty() {
            args = words2("add", "--");
            let ghost given = args.deep_view();
            let mut named = copy_all(ps);
            let ghost ns = named.deep_view();
            let ghost a0 = args@;
            let ghost n0 = named@;
            args.append(&mut named);
            assert(args@ =~= a0 + n0);
            assert(args.deep_view() =~= given + ns);
        }
    }
    let (_, at) = run_git(working_dir, args, replies, at)?;
    let (staged, at) = run_git(working_dir, words3("diff", "--cached", "--stat"), replies, at)?;
    if staged.as_str().is_empty() {
        return Err(Halt::Fail(DomainError::Git("nothing to commit".to_string()), at));
    }
    let (_, at) = run_git(working_dir, words3("commit", "-m", message), replies, at)?;
    let (hash, at) = run_git(working_dir, words3("rev-parse", "--short", "HEAD"), replies, at)?;
    let listed = lines(staged.as_str());
    let files_changed = if listed.len() > 0 {
        listed.len() - 1
    } else {
        0
    };
    Ok((CommitResult { hash, message: message.to_string(), files_changed }, at))
}

// ---------------------------------------------------------------------------
// Reset
// ---------------------------------------------------------------------------

/// The reset modes that lose nothing.
pub open spec fn is_safe_mode(mode: Seq<char>) -> bool {
    mode == "soft"@ || mode == "mixed"@
}

/// What is wrong with another mode.
pub open spec fn unsafe_mode(mode: Seq<char>) -> DomainErrorView {
    DomainErrorView::Git(
        "unsupported reset mode: "@ + mode + ". Only 'soft' and 'mixed' are allowed"@,
    )
}

/// Moving the head to `target`, in a mode that loses nothing.
pub open spec fn reset_flow(
    dir: Seq<char>,
    mode: Seq<char>,
    target: Seq<char>,
    replies: Seq<ReplyView>,
    at: nat,
) -> FlowView<ResetResultView, DomainErrorView> {
    let head = seq!["rev-parse"@, "--short"@, "HEAD"@];
    if !is_safe_mode(mode) {
        Err(HaltView::Fail(unsafe_mode(mode), at))
    } else {
        match git_text(dir, head, replies, at) {
            Ok((previous_head, n)) => match git_text(
                dir,
                seq!["reset"@, "--"@ + mode, target],
                replies,
                n,
            ) {
                Ok((_, n)) => match git_text(dir, head, replies, n) {
                    Ok((new_head, n)) => Ok((ResetResultView { previous_head, new_head, mode }, n)),
                    Err(h) => Err(h),
                },
                Err(h) => Err(h),
            },
            Err(h) => Err(h),
        }
    }
}

/// Moves the head to `target`.
pub fn reset(working_dir: &str, mode: &str, target: &str, replies: &[Reply], at: usize) -> (r: Flow<
    ResetResult,
    DomainError,
>)
    ensures
        flow_view(r) == reset_flow(
            working_dir@,
            mode@,
            target@,
            replies.deep_view(),
            at as nat,
        ),
{
    if !same(mode, "soft") && !same(mode, "mixed") {
        let message = "unsupported reset mode: ".to_string().concat(mode).concat(
            ". Only 'soft' and 'mixed' are allowed",
        );
        return Err(Halt::Fail(DomainError::Git(message), at));
    }
    let head = words3("rev-parse", "--short", "HEAD");
    let (previous_head, at) = run_git(working_dir, head, replies, at)?;
    let flag = "--".to_string().concat(mode);
    let (_, at) = run_git(working_dir, words3("reset", flag.as_str(), target), replies, at)?;
    let head = words3("rev-parse", "--short", "HEAD");
    let (new_head, at) = run_git(working_dir, head, replies, at)?;
    Ok((ResetResult { previous_head, new_head, mode: mode.to_string() }, at))
}

} // verus!
