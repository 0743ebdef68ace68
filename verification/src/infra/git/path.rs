//! Paths as text, with `/` between the components.

use vstd::prelude::*;
use vstd::string::*;
use crate::domain::error::{DomainError, DomainErrorView};
use crate::protocol::{
    canonical, canonicalize, flow_view, replied, reply_to, Action, ActionView, Flow, FlowView, Halt,
    HaltView, Reply, ReplyView, Resolved,
};
use crate::text::chars_of;

verus! {

/// `path` followed by `name`. A separator goes between them where `path` is not
/// empty and has none at its end; an absolute `name` stands alone.
pub open spec fn joined_path(path: Seq<char>, name: Seq<char>) -> Seq<char> {
    if name.len() > 0 && name[0] == '/' {
        name
    } else if path.len() > 0 && path.last() != '/' {
        path.push('/') + name
    } else {
        path + name
    }
}

/// `path` followed by `name`.
pub fn join_path(path: &str, name: &str) -> (r: String)
    ensures
        r@ == joined_path(path@, name@),
{
    let p = chars_of(path);
    let n = chars_of(name);
    if n.len() > 0 && n[0] == '/' {
        name.to_string()
    } else if p.len() > 0 && p[p.len() - 1] != '/' {
        let mut r = path.to_string();
        r.push('/');
        r.concat(name)
    } else {
        path.to_string().concat(name)
    }
}

/// Where the worktree `name` of `repo` is.
pub open spec fn worktree_path_of(repo: Seq<char>, name: Seq<char>) -> Seq<char> {
    joined_path(joined_path(repo, ".worktrees"@), name)
}

/// Where the worktree `name` of `repo` is.
pub fn worktree_path(repo: &str, name: &str) -> (r: String)
    ensures
        r@ == worktree_path_of(repo@, name@),
{
    join_path(join_path(repo, ".worktrees").as_str(), name)
}

// ---------------------------------------------------------------------------
// Resolving
// ---------------------------------------------------------------------------

/// Resolving a path that must resolve; `what` says in the message which it is.
pub open spec fn resolved_flow(
    what: Seq<char>,
    path: Seq<char>,
    replies: Seq<ReplyView>,
    at: nat,
) -> FlowView<Seq<char>, DomainErrorView> {
    match canonical(path, replies, at) {
        Ok((Ok(p), n)) => Ok((p, n)),
        Ok((Err(e), n)) => {
            let message = "failed to canonicalize "@ + what + " "@ + path + ": "@ + e;
            Err(HaltView::Fail(DomainErrorView::Git(message), n))
        },
        Err(h) => Err(h),
    }
}

/// Resolves a path that must resolve.
pub fn resolve(what: &str, path: &str, replies: &[Reply], at: usize) -> (r: Flow<
    String,
    DomainError,
>)
    ensures
        flow_view(r) == resolved_flow(what@, path@, replies.deep_view(), at as nat),
{
    let (resolved, at) = canonicalize(path, replies, at)?;
    match resolved {
        Resolved::Path(p) => Ok((p, at)),
        Resolved::Unresolved(e) => {
            let message = "failed to canonicalize ".to_string().concat(what).concat(" ").concat(
                path,
            ).concat(": ").concat(e.as_str());
            Err(Halt::Fail(DomainError::Git(message), at))
        },
    }
}

// ---------------------------------------------------------------------------
// Absolute paths
// ---------------------------------------------------------------------------

/// Whether a path starts with a separator.
pub open spec fn is_rooted(path: Seq<char>) -> bool {
    path.len() > 0 && path[0] == '/'
}

/// Whether a path starts with a drive and a separator, as in `C:\dir`.
pub open spec fn has_drive(path: Seq<char>) -> bool {
    &&& path.len() > 2
    &&& 'a' <= path[0] <= 'z' || 'A' <= path[0] <= 'Z'
    &&& path[1] == ':'
    &&& path[2] == '\\' || path[2] == '/'
}

/// Whether a path starts with two backslashes, as in `\\server\share`.
pub open spec fn has_share(path: Seq<char>) -> bool {
    path.len() > 1 && path[0] == '\\' && path[1] == '\\'
}

/// Whether a path says by itself where it is, on one system or another.
pub open spec fn is_absolute(path: Seq<char>) -> bool {
    is_rooted(path) || has_drive(path) || has_share(path)
}

/// Whether a path starts with a separator.
pub fn rooted(path: &str) -> (r: bool)
    ensures
        r == is_rooted(path@),
{
    let v = chars_of(path);
    v.len() > 0 && v[0] == '/'
}

/// Whether a path says by itself where it is, on one system or another.
pub fn absolute(path: &str) -> (r: bool)
    ensures
        r == is_absolute(path@),
{
    let v = chars_of(path);
    let n = v.len();
    let drive = n > 2 && ('a' <= v[0] && v[0] <= 'z' || 'A' <= v[0] && v[0] <= 'Z') && v[1] == ':'
        && (v[2] == '\\' || v[2] == '/');
    let share = n > 1 && v[0] == '\\' && v[1] == '\\';
    n > 0 && v[0] == '/' || drive || share
}

/// The absolute path of a repository: as it is given where it starts with a separator,
/// and else as the system makes it absolute.
pub open spec fn home_flow(repo: Seq<char>, replies: Seq<ReplyView>, at: nat) -> FlowView<
    Seq<char>,
    DomainErrorView,
> {
    if is_rooted(repo) {
        Ok((repo, at))
    } else {
        match replied(ActionView::MakeAbsolute { path: repo }, replies, at) {
            Ok(ReplyView::Path(home)) => if is_absolute(home) {
                Ok((home, at + 1))
            } else {
                let message = "no absolute path for repo "@ + repo + ": "@ + home;
                Err(HaltView::Fail(DomainErrorView::Git(message), at + 1))
            },
            Ok(ReplyView::Failed(e)) => Err(HaltView::Fail(DomainErrorView::Io(e), at + 1)),
            Ok(_) => Err(HaltView::Mismatch),
            Err(h) => Err(h),
        }
    }
}

/// Finds the absolute path of a repository.
pub fn find_home(repo: &str, replies: &[Reply], at: usize) -> (r: Flow<String, DomainError>)
    ensures
        flow_view(r) == home_flow(repo@, replies.deep_view(), at as nat),
{
    if rooted(repo) {
        return Ok((repo.to_string(), at));
    }
    match reply_to(Action::MakeAbsolute { path: repo.to_string() }, replies, at)? {
        Reply::Path(home) => {
            if !absolute(home.as_str()) {
                let message = "no absolute path for repo ".to_string().concat(repo).concat(
                    ": ",
                ).concat(home.as_str());
                return Err(Halt::Fail(DomainError::Git(message), at + 1));
            }
            Ok((home.clone(), at + 1))
        },
        Reply::Failed(e) => Err(Halt::Fail(DomainError::Io(e.clone()), at + 1)),
        _ => Err(Halt::Mismatch),
    }
}

/// The worktrees of a repository with an absolute path have absolute paths.
pub proof fn lemma_worktree_path_is_absolute(home: Seq<char>, name: Seq<char>)
    requires
        is_absolute(home),
    ensures
        is_absolute(worktree_path_of(home, name)),
{
    reveal_strlit(".worktrees");
    let dir = joined_path(home, ".worktrees"@);
    let path = worktree_path_of(home, name);
    assert(forall|i: int| 0 <= i < home.len() ==> dir[i] == home[i]);
    if !is_rooted(name) {
        assert(forall|i: int| 0 <= i < home.len() ==> path[i] == home[i]);
    }
}

} // verus!
