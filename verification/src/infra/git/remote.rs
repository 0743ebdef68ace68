//! Remotes: which names are accepted, fetching, listing.

use vstd::prelude::*;
use vstd::string::*;
use crate::domain::error::{DomainError, DomainErrorView};
use crate::domain::worktree::{RemoteEntry, RemoteEntryView};
use crate::protocol::{
    flow_view, git_text, run_git, Flow, FlowView, Halt, HaltView, Reply, ReplyView,
};
use crate::text::{
    alnum, append, chars_of, is_alnum, lines, lines_of, parted, parted_last, rsplit_once, same,
    split_once, words2,
};

verus! {

// ---------------------------------------------------------------------------
// Names
// ---------------------------------------------------------------------------

/// The characters of a remote's name.
pub open spec fn in_remote_name(c: char) -> bool {
    is_alnum(c) || c == '/' || c == '.' || c == '_' || c == '-'
}

/// The characters of a refspec.
pub open spec fn in_refspec(c: char) -> bool {
    in_remote_name(c) || c == '*' || c == '+' || c == '~' || c == '^' || c == ':'
}

/// A remote's name made of accepted characters alone.
pub open spec fn is_remote_name(s: Seq<char>) -> bool {
    s.len() > 0 && forall|i: int| 0 <= i < s.len() ==> in_remote_name(#[trigger] s[i])
}

/// A refspec made of accepted characters alone.
pub open spec fn is_refspec(s: Seq<char>) -> bool {
    s.len() > 0 && forall|i: int| 0 <= i < s.len() ==> in_refspec(#[trigger] s[i])
}

/// What is wrong with a name that is none.
pub open spec fn bad_remote_name(s: Seq<char>) -> DomainErrorView {
    DomainErrorView::Git("invalid remote name: "@ + s)
}

/// What is wrong with a refspec that is none.
pub open spec fn bad_refspec(s: Seq<char>) -> DomainErrorView {
    DomainErrorView::Git("invalid refspec: "@ + s)
}

/// Whether `c` may stand in a remote's name.
fn remote_name_char(c: char) -> (r: bool)
    ensures
        r == in_remote_name(c),
{
    alnum(c) || c == '/' || c == '.' || c == '_' || c == '-'
}

/// Accepts the names that are remote names, and no others.
pub fn validate_remote_name(s: &str) -> (r: Result<(), DomainError>)
    ensures
        r is Ok <==> is_remote_name(s@),
        r matches Err(e) ==> e.deep_view() == bad_remote_name(s@),
{
    let v = chars_of(s);
    let mut accepted: bool = !v.is_empty();
    let mut i: usize = 0;
    while i < v.len()
        invariant
            v@ == s@,
            i <= v@.len(),
            accepted == (v@.len() > 0 && forall|j: int|
                0 <= j < i ==> in_remote_name(#[trigger] v@[j])),
        decreases v@.len() - i,
    {
        accepted = accepted && remote_name_char(v[i]);
        i += 1;
    }
    if accepted {
        Ok(())
    } else {
        Err(DomainError::Git("invalid remote name: ".to_string().concat(s)))
    }
}

/// Accepts the texts that are refspecs, and no others.
pub fn validate_refspec(s: &str) -> (r: Result<(), DomainError>)
    ensures
        r is Ok <==> is_refspec(s@),
        r matches Err(e) ==> e.deep_view() == bad_refspec(s@),
{
    let v = chars_of(s);
    let mut accepted: bool = !v.is_empty();
    let mut i: usize = 0;
    while i < v.len()
        invariant
            v@ == s@,
            i <= v@.len(),
            accepted == (v@.len() > 0 && forall|j: int|
                0 <= j < i ==> in_refspec(#[trigger] v@[j])),
        decreases v@.len() - i,
    {
        let c = v[i];
        accepted = accepted && (remote_name_char(c) || c == '*' || c == '+' || c == '~' || c == '^'
            || c == ':');
        i += 1;
    }
    if accepted {
        Ok(())
    } else {
        Err(DomainError::Git("invalid refspec: ".to_string().concat(s)))
    }
}

// ---------------------------------------------------------------------------
// Fetching
// ---------------------------------------------------------------------------

/// The command that fetches, from `origin` where no remote is given.
pub open spec fn fetch_args(
    remote: Option<Seq<char>>,
    refspec: Option<Seq<char>>,
    prune: bool,
) -> Seq<Seq<char>> {
    let start = if prune {
        seq!["fetch"@, "--prune"@]
    } else {
        seq!["fetch"@]
    };
    let source = match remote {
        Some(name) => name,
        None => "origin"@,
    };
    match refspec {
        Some(refs) => start.push(source).push(refs),
        None => start.push(source),
    }
}

/// Fetching: a name that is not accepted is refused before anything is run.
pub open spec fn fetch_flow(
    repo: Seq<char>,
    remote: Option<Seq<char>>,
    refspec: Option<Seq<char>>,
    prune: bool,
    replies: Seq<ReplyView>,
    at: nat,
) -> FlowView<Seq<char>, DomainErrorView> {
    if remote is Some && !is_remote_name(remote->0) {
        Err(HaltView::Fail(bad_remote_name(remote->0), at))
    } else if refspec is Some && !is_refspec(refspec->0) {
        Err(HaltView::Fail(bad_refspec(refspec->0), at))
    } else {
        git_text(repo, fetch_args(remote, refspec, prune), replies, at)
    }
}

/// Fetches, and gives back what git prints.
pub fn fetch(
    repo: &str,
    remote: Option<&str>,
    refspec: Option<&str>,
    prune: bool,
    replies: &[Reply],
    at: usize,
) -> (r: Flow<String, DomainError>)
    ensures
        flow_view(r) == fetch_flow(
            repo@,
            remote.deep_view(),
            refspec.deep_view(),
            prune,
            replies.deep_view(),
            at as nat,
        ),
{
    if let Some(name) = remote {
        if let Err(e) = validate_remote_name(name) {
            return Err(Halt::Fail(e, at));
        }
    }
    if let Some(refs) = refspec {
        if let Err(e) = validate_refspec(refs) {
            return Err(Halt::Fail(e, at));
        }
    }
    let mut args: Vec<String> = Vec::new();
    append(&mut args, "fetch".to_string());
    if prune {
        append(&mut args, "--prune".to_string());
    }
    let source = match remote {
        Some(name) => name,
        None => "origin",
    };
    append(&mut args, source.to_string());
    if let Some(refs) = refspec {
        append(&mut args, refs.to_string());
    }
    assert(args.deep_view() =~= fetch_args(remote.deep_view(), refspec.deep_view(), prune));
    run_git(repo, args, replies, at)
}

// ---------------------------------------------------------------------------
// Listing
// ---------------------------------------------------------------------------

/// The direction that a word in round brackets stands for.
pub open spec fn direction_of(word: Seq<char>) -> Option<Seq<char>> {
    if word == "(fetch)"@ {
        Some("fetch"@)
    } else if word == "(push)"@ {
        Some("push"@)
    } else {
        None
    }
}

/// The entry that a line of `git remote -v` tells of: the name, a tab, the URL, a
/// space and the direction in round brackets. Other lines tell of none.
pub open spec fn remote_in(line: Seq<char>) -> Option<RemoteEntryView> {
    match parted(line, '\t') {
        Some((name, rest)) => match parted_last(rest, ' ') {
            Some((url, word)) => match direction_of(word) {
                Some(direction) => Some(RemoteEntryView { name, url, direction }),
                None => None,
            },
            None => None,
        },
        None => None,
    }
}

/// The entries that the lines tell of, in their order.
pub open spec fn remotes_in(lines: Seq<Seq<char>>) -> Seq<RemoteEntryView>
    decreases lines.len(),
{
    if lines.len() == 0 {
        seq![]
    } else {
        let earlier = remotes_in(lines.drop_last());
        match remote_in(lines.last()) {
            Some(entry) => earlier.push(entry),
            None => earlier,
        }
    }
}

/// The remotes of a repository.
pub open spec fn remote_list_flow(repo: Seq<char>, replies: Seq<ReplyView>, at: nat) -> FlowView<
    Seq<RemoteEntryView>,
    DomainErrorView,
> {
    match git_text(repo, seq!["remote"@, "-v"@], replies, at) {
        Ok((listing, n)) => Ok((remotes_in(lines_of(listing)), n)),
        Err(h) => Err(h),
    }
}

/// The entry that a line of `git remote -v` tells of.
fn parse_remote(line: &str) -> (r: Option<RemoteEntry>)
    ensures
        r.deep_view() == remote_in(line@),
{
    if let Some((name, rest)) = split_once(line, '\t') {
        if let Some((url, word)) = rsplit_once(rest.as_str(), ' ') {
            if same(word.as_str(), "(fetch)") {
                return Some(RemoteEntry { name, url, direction: "fetch".to_string() });
            }
            if same(word.as_str(), "(push)") {
                return Some(RemoteEntry { name, url, direction: "push".to_string() });
            }
        }
    }
    None
}

/// Reads the entries in what `git remote -v` prints.
pub fn parse_remotes(listing: &str) -> (r: Vec<RemoteEntry>)
    ensures
        r.deep_view() == remotes_in(lines_of(listing@)),
{
    let all = lines(listing);
    let ghost ls = all.deep_view();
    let mut r: Vec<RemoteEntry> = Vec::new();
    let mut i: usize = 0;
    while i < all.len()
        invariant
            ls == all.deep_view(),
            i <= all@.len(),
            r.deep_view() == remotes_in(ls.take(i as int)),
        decreases all@.len() - i,
    {
        assert(ls.take(i + 1).drop_last() =~= ls.take(i as int));
        assert(ls.take(i + 1).last() == all@[i as int]@);
        if let Some(entry) = parse_remote(all[i].as_str()) {
            append(&mut r, entry);
        }
        i += 1;
    }
    assert(ls.take(i as int) =~= ls);
    r
}

/// The remotes of a repository.
pub fn remote_list(repo: &str, replies: &[Reply], at: usize) -> (r: Flow<
    Vec<RemoteEntry>,
    DomainError,
>)
    ensures
        flow_view(r) == remote_list_flow(repo@, replies.deep_view(), at as nat),
{
    let (listing, at) = run_git(repo, words2("remote", "-v"), replies, at)?;
    Ok((parse_remotes(listing.as_str()), at))
}

} // verus!
