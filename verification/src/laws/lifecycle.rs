//! What holds of a worktree from the session that makes it to the one that cleans up
//! after it, in a world that keeps what is written.

use vstd::prelude::*;
use crate::domain::error::DomainErrorView;
use crate::domain::session::WorktreeSessionView;
use crate::infra::git::branch::{branch_delete_flow, merge_flow};
use crate::infra::git::path::{
    home_flow, is_absolute, is_rooted, lemma_worktree_path_is_absolute, worktree_path_of,
};
use crate::infra::git::worktree::{
    allow_dirty_variable, base_branch_flow, branch_exists_flow, checked_out_at, waives,
    worktree_add_flow, worktree_remove_flow, worktrees_in,
};
use crate::infra::session_store::{
    acquired, load_flow, owner_in, ownership, records_read, records_written, register_flow,
    released, stamp, store_of, unregister_flow, without, SessionStoreView,
};
use crate::interface::mcp::mode::{told, ToolErrorView};
use crate::interface::mcp::server::{in_tool, ServerView};
use crate::interface::mcp::tools::{
    branch_delete_tool, created_text, merge_tool, record_on, session_release_tool,
    worktree_add_tool, worktree_remove_tool,
};
use crate::laws::records::{
    law_registering_gives_ownership, law_releasing_frees, law_releasing_is_idempotent,
    law_releasing_undoes_registering,
};
use crate::laws::store::{contents, kept, RecordsFile};
use crate::protocol::{flag, git, succeeded, variable, ActionView, FlowView, HaltView, ReplyView};
use crate::text::trimmed;

verus! {

// ---------------------------------------------------------------------------
// The world
// ---------------------------------------------------------------------------

/// The world around the records: what the clock says, and how all that does not
/// concern the records is answered.
pub struct Surroundings {
    pub seconds: Option<u64>,
    pub rest: spec_fn(ActionView) -> ReplyView,
}

/// How the world answers: the records afterwards, and the reply.
pub open spec fn answered(
    root: Seq<char>,
    file: RecordsFile,
    world: Surroundings,
    a: ActionView,
) -> (RecordsFile, ReplyView) {
    match kept(store_of(root), file, world.seconds, a) {
        Some(known) => known,
        None => (file, (world.rest)(a)),
    }
}

/// Answering questions for as long as there are any, `steps` at most: the records
/// afterwards, all the replies, and the steps that are left.
pub open spec fn onward(
    question: spec_fn(Seq<ReplyView>) -> Option<ActionView>,
    root: Seq<char>,
    file: RecordsFile,
    world: Surroundings,
    replies: Seq<ReplyView>,
    steps: nat,
) -> (RecordsFile, Seq<ReplyView>, nat)
    decreases steps,
{
    match question(replies) {
        Some(a) if steps > 0 => {
            let (after, reply) = answered(root, file, world, a);
            onward(question, root, after, world, replies.push(reply), (steps - 1) as nat)
        },
        _ => (file, replies, steps),
    }
}

/// What an operation asks for.
pub open spec fn asked<T, E>(f: FlowView<T, E>) -> Option<ActionView> {
    match f {
        Err(HaltView::Ask(a)) => Some(a),
        _ => None,
    }
}

/// The questions of a tool.
pub open spec fn questions(
    tool: spec_fn(Seq<ReplyView>) -> FlowView<Seq<char>, ToolErrorView>,
) -> spec_fn(Seq<ReplyView>) -> Option<ActionView> {
    |r: Seq<ReplyView>| asked(tool(r))
}

/// Seeing a tool through in a world that keeps the records that are written: what it
/// comes to, and the records afterwards.
pub open spec fn carried(
    tool: spec_fn(Seq<ReplyView>) -> FlowView<Seq<char>, ToolErrorView>,
    root: Seq<char>,
    file: RecordsFile,
    world: Surroundings,
) -> (FlowView<Seq<char>, ToolErrorView>, RecordsFile) {
    let (after, replies, _) = onward(questions(tool), root, file, world, seq![], plenty());
    (tool(replies), after)
}

/// The number of replies that none of the tools goes beyond.
pub open spec fn plenty() -> nat {
    17
}

/// `worktree_add` as a function of the replies.
pub open spec fn adding(
    server: ServerView,
    name: Seq<char>,
    branch: Seq<char>,
    base: Option<Seq<char>>,
) -> spec_fn(Seq<ReplyView>) -> FlowView<Seq<char>, ToolErrorView> {
    |r: Seq<ReplyView>| worktree_add_tool(server, name, branch, base, r, 0)
}

/// `worktree_remove` as a function of the replies.
pub open spec fn removing(server: ServerView, name: Seq<char>) -> spec_fn(
    Seq<ReplyView>,
) -> FlowView<Seq<char>, ToolErrorView> {
    |r: Seq<ReplyView>| worktree_remove_tool(server, name, r, 0)
}

/// `session_release` as a function of the replies.
pub open spec fn freeing(server: ServerView, name: Seq<char>) -> spec_fn(
    Seq<ReplyView>,
) -> FlowView<Seq<char>, ToolErrorView> {
    |r: Seq<ReplyView>| session_release_tool(server, name, r, 0)
}

/// Seeing `worktree_add` through.
pub open spec fn added(
    server: ServerView,
    name: Seq<char>,
    branch: Seq<char>,
    base: Option<Seq<char>>,
    file: RecordsFile,
    world: Surroundings,
) -> (FlowView<Seq<char>, ToolErrorView>, RecordsFile) {
    carried(adding(server, name, branch, base), server.repo_root->0, file, world)
}

/// Seeing `worktree_remove` through.
pub open spec fn removed(
    server: ServerView,
    name: Seq<char>,
    file: RecordsFile,
    world: Surroundings,
) -> (FlowView<Seq<char>, ToolErrorView>, RecordsFile) {
    carried(removing(server, name), server.repo_root->0, file, world)
}

/// Seeing `session_release` through.
pub open spec fn freed(
    server: ServerView,
    name: Seq<char>,
    file: RecordsFile,
    world: Surroundings,
) -> (FlowView<Seq<char>, ToolErrorView>, RecordsFile) {
    carried(freeing(server, name), server.repo_root->0, file, world)
}

/// Whether a tool succeeded, and with what text.
pub open spec fn succeeds_with(f: FlowView<Seq<char>, ToolErrorView>, text: Seq<char>) -> bool {
    f matches Ok((t, _)) && t == text
}

/// Whether a tool failed, and what the client is told.
pub open spec fn fails_with(f: FlowView<Seq<char>, ToolErrorView>, e: ToolErrorView) -> bool {
    f matches Err(HaltView::Fail(d, _)) && d == e
}

// ---------------------------------------------------------------------------
// What git and the file system must do for success
// ---------------------------------------------------------------------------

/// Whether git does in `dir` what it is told.
pub open spec fn git_does(world: Surroundings, dir: Seq<char>, args: Seq<Seq<char>>) -> bool {
    (world.rest)(git(dir, args)) matches ReplyView::Output(o) && succeeded(o)
}

/// Whether the base branch is checked out nowhere, or without changes.
pub open spec fn base_is_clean(world: Surroundings, root: Seq<char>, base: Seq<char>) -> bool {
    &&& (world.rest)(git(root, seq!["worktree"@, "list"@, "--porcelain"@])) matches
        ReplyView::Output(o)
    &&& succeeded(o)
    &&& {
        let worktrees = worktrees_in(trimmed(o.stdout));
        let i = checked_out_at(worktrees, base);
        i < worktrees.len() ==> {
            &&& (world.rest)(git(worktrees[i as int].path, seq!["status"@, "--porcelain"@])) matches
                ReplyView::Output(s)
            &&& succeeded(s)
            &&& trimmed(trimmed(s.stdout)).len() == 0
        }
    }
}

/// The absolute path of the repository `root`, where it has one.
pub open spec fn home_in(world: Surroundings, root: Seq<char>) -> Option<Seq<char>> {
    if is_rooted(root) {
        Some(root)
    } else {
        match (world.rest)(ActionView::MakeAbsolute { path: root }) {
            ReplyView::Path(home) if is_absolute(home) => Some(home),
            _ => None,
        }
    }
}

/// Where a new worktree goes.
pub open spec fn place_in(world: Surroundings, root: Seq<char>, name: Seq<char>) -> Seq<char> {
    worktree_path_of(home_in(world, root)->0, name)
}

/// Whether nothing stands in the way of a new worktree: the repository has an absolute
/// path, that of the worktree is not that of the records and nothing is there, there is
/// no branch of that name, a base is clean or need not be, and git makes the branch and
/// the worktree.
pub open spec fn can_be_made(
    world: Surroundings,
    root: Seq<char>,
    name: Seq<char>,
    branch: Seq<char>,
    base: Option<Seq<char>>,
) -> bool {
    let path = place_in(world, root, name);
    &&& home_in(world, root) is Some
    &&& path != store_of(root).path
    &&& (world.rest)(ActionView::PathExists { path }) == ReplyView::Flag(false)
    &&& (world.rest)(
        git(root, seq!["show-ref"@, "--verify"@, "--quiet"@, "refs/heads/"@ + branch]),
    ) matches ReplyView::Output(found)
    &&& !succeeded(found)
    &&& (world.rest)(ActionView::ReadVariable { name: allow_dirty_variable() }) matches
        ReplyView::Variable(waiver)
    &&& match base {
        Some(b) => (waives(waiver) || base_is_clean(world, root, b)) && git_does(
            world,
            root,
            seq!["branch"@, branch, b],
        ),
        None => git_does(world, root, seq!["branch"@, branch]),
    }
    &&& git_does(world, root, seq!["worktree"@, "add"@, path, branch])
}

/// Whether a worktree is there, at a path that is not that of the records, and git
/// removes it.
pub open spec fn can_be_removed(world: Surroundings, root: Seq<char>, name: Seq<char>) -> bool {
    let path = worktree_path_of(root, name);
    &&& path != store_of(root).path
    &&& (world.rest)(ActionView::PathExists { path }) == ReplyView::Flag(true)
    &&& git_does(world, root, seq!["worktree"@, "remove"@, "--force"@, path])
}

// ---------------------------------------------------------------------------
// Part by part
// ---------------------------------------------------------------------------

/// Whether the questions of a whole are those of a part of it, as long as the part has
/// any, once it has come to `replies`.
spec fn begins_with_part(
    whole: spec_fn(Seq<ReplyView>) -> Option<ActionView>,
    part: spec_fn(Seq<ReplyView>) -> Option<ActionView>,
    replies: Seq<ReplyView>,
) -> bool {
    forall|r: Seq<ReplyView>|
        replies.is_prefix_of(r) && #[trigger] part(r) is Some ==> whole(r) == part(r)
}

/// A whole can be answered part by part.
proof fn lemma_part(
    whole: spec_fn(Seq<ReplyView>) -> Option<ActionView>,
    part: spec_fn(Seq<ReplyView>) -> Option<ActionView>,
    root: Seq<char>,
    file: RecordsFile,
    world: Surroundings,
    replies: Seq<ReplyView>,
    steps: nat,
)
    requires
        begins_with_part(whole, part, replies),
    ensures
        ({
            let (f, r, n) = onward(part, root, file, world, replies, steps);
            onward(whole, root, file, world, replies, steps) == onward(whole, root, f, world, r, n)
        }),
    decreases steps,
{
    assert(replies.is_prefix_of(replies));
    match part(replies) {
        Some(a) if steps > 0 => {
            let (after, reply) = answered(root, file, world, a);
            let more = replies.push(reply);
            assert forall|r: Seq<ReplyView>|
                more.is_prefix_of(r) && #[trigger] part(r) is Some implies whole(r) == part(r) by {
                assert(replies =~= r.take(replies.len() as int)) by {
                    assert(more =~= r.take(more.len() as int));
                    assert(forall|i: int| 0 <= i < more.len() ==> more[i] == r[i]);
                }
                assert(replies.is_prefix_of(r));
            }
            lemma_part(whole, part, root, after, world, more, (steps - 1) as nat);
        },
        _ => {},
    }
}

/// What begins with more begins with less.
proof fn lemma_prefix(less: Seq<ReplyView>, more: Seq<ReplyView>, all: Seq<ReplyView>)
    requires
        less.is_prefix_of(more),
        more.is_prefix_of(all),
    ensures
        less.is_prefix_of(all),
{
    assert(forall|i: int| 0 <= i < more.len() ==> more[i] == all[i]);
    assert(forall|i: int| 0 <= i < less.len() ==> less[i] == more[i]);
    assert(less =~= all.take(less.len() as int));
}

// ---------------------------------------------------------------------------
// The parts
// ---------------------------------------------------------------------------

/// Taking the lock and reading the records.
#[verifier::opaque]
spec fn opened(store: SessionStoreView, replies: Seq<ReplyView>, at: nat) -> FlowView<
    Seq<WorktreeSessionView>,
    DomainErrorView,
> {
    match acquired(store, replies, at) {
        Ok((_, n)) => records_read(store, replies, n),
        Err(h) => Err(h),
    }
}

/// Writing the records and giving the lock up.
#[verifier::opaque]
spec fn closed_with(
    store: SessionStoreView,
    sessions: Seq<WorktreeSessionView>,
    replies: Seq<ReplyView>,
    at: nat,
) -> FlowView<(), DomainErrorView> {
    released(store, records_written(store, sessions, replies, at), replies)
}

/// The questions of [`opened`].
#[verifier::opaque]
spec fn opening(root: Seq<char>, at: nat) -> spec_fn(Seq<ReplyView>) -> Option<ActionView> {
    |r: Seq<ReplyView>| asked(opened(store_of(root), r, at))
}

/// The questions of [`closed_with`].
#[verifier::opaque]
spec fn closing(
    root: Seq<char>,
    sessions: Seq<WorktreeSessionView>,
    at: nat,
) -> spec_fn(Seq<ReplyView>) -> Option<ActionView> {
    |r: Seq<ReplyView>| asked(closed_with(store_of(root), sessions, r, at))
}

/// The replies to [`opened`].
spec fn opening_replies(file: RecordsFile) -> Seq<ReplyView> {
    let locked = seq![ReplyView::Completed, ReplyView::Completed, ReplyView::Completed];
    match file {
        Some(sessions) => locked + seq![ReplyView::Flag(true), ReplyView::Sessions(sessions)],
        None => locked + seq![ReplyView::Flag(false)],
    }
}

/// The replies to [`closed_with`].
spec fn closing_replies() -> Seq<ReplyView> {
    seq![ReplyView::Completed, ReplyView::Completed, ReplyView::Completed]
}

/// Taking the lock and reading the records.
proof fn lemma_opens(
    root: Seq<char>,
    file: RecordsFile,
    world: Surroundings,
    replies: Seq<ReplyView>,
    steps: nat,
)
    requires
        steps >= 5,
    ensures
        ({
            let all = replies + opening_replies(file);
            &&& onward(opening(root, replies.len()), root, file, world, replies, steps) == (
                file,
                all,
                (steps - opening_replies(file).len()) as nat,
            )
            &&& forall|r: Seq<ReplyView>|
                all.is_prefix_of(r) ==> #[trigger] opened(store_of(root), r, replies.len()) == Ok::<
                    _,
                    HaltView<DomainErrorView>,
                >((contents(file), all.len()))
        }),
{
    reveal(opened);
    reveal(opening);
    reveal_with_fuel(onward, 6);
    let all = replies + opening_replies(file);
    assert(onward(opening(root, replies.len()), root, file, world, replies, steps).1 =~= all);
}

/// Writing the records and giving the lock up.
proof fn lemma_closes(
    root: Seq<char>,
    sessions: Seq<WorktreeSessionView>,
    file: RecordsFile,
    world: Surroundings,
    replies: Seq<ReplyView>,
    steps: nat,
)
    requires
        steps >= 3,
    ensures
        ({
            let all = replies + closing_replies();
            &&& onward(closing(root, sessions, replies.len()), root, file, world, replies, steps)
                == (Some(sessions), all, (steps - 3) as nat)
            &&& forall|r: Seq<ReplyView>|
                all.is_prefix_of(r) ==> #[trigger] closed_with(
                    store_of(root),
                    sessions,
                    r,
                    replies.len(),
                ) == Ok::<_, HaltView<DomainErrorView>>(((), all.len()))
        }),
{
    reveal(closed_with);
    reveal(closing);
    reveal_with_fuel(onward, 4);
    let all = replies + closing_replies();
    assert(onward(closing(root, sessions, replies.len()), root, file, world, replies, steps).1
        =~= all);
}

/// The questions of reading the records.
#[verifier::opaque]
spec fn loading(root: Seq<char>, at: nat) -> spec_fn(Seq<ReplyView>) -> Option<ActionView> {
    |r: Seq<ReplyView>| asked(load_flow(store_of(root), r, at))
}

/// Whether reading the records comes to `sessions`, with `n` the next reply.
#[verifier::opaque]
spec fn loads_to(
    root: Seq<char>,
    r: Seq<ReplyView>,
    at: nat,
    sessions: Seq<WorktreeSessionView>,
    n: nat,
) -> bool {
    load_flow(store_of(root), r, at) == Ok::<_, HaltView<DomainErrorView>>((sessions, n))
}

/// The questions of dropping records.
#[verifier::opaque]
spec fn dropping(root: Seq<char>, name: Seq<char>, at: nat) -> spec_fn(Seq<ReplyView>) -> Option<
    ActionView,
> {
    |r: Seq<ReplyView>| asked(unregister_flow(store_of(root), name, r, at))
}

/// Whether dropping records succeeds, with `n` the next reply.
#[verifier::opaque]
spec fn drops_to(
    root: Seq<char>,
    name: Seq<char>,
    r: Seq<ReplyView>,
    at: nat,
    n: nat,
) -> bool {
    unregister_flow(store_of(root), name, r, at) == Ok::<_, HaltView<DomainErrorView>>(((), n))
}

/// The questions of adding a record.
#[verifier::opaque]
spec fn recording(
    root: Seq<char>,
    name: Seq<char>,
    branch: Seq<char>,
    session_id: Seq<char>,
    at: nat,
) -> spec_fn(Seq<ReplyView>) -> Option<ActionView> {
    |r: Seq<ReplyView>| asked(register_flow(store_of(root), name, branch, session_id, r, at))
}

/// Whether adding a record succeeds, with `n` the next reply.
#[verifier::opaque]
spec fn records_to(
    root: Seq<char>,
    name: Seq<char>,
    branch: Seq<char>,
    session_id: Seq<char>,
    r: Seq<ReplyView>,
    at: nat,
    n: nat,
) -> bool {
    register_flow(store_of(root), name, branch, session_id, r, at) == Ok::<
        _,
        HaltView<DomainErrorView>,
    >(((), n))
}

/// Dropping records: taking the lock and reading, then writing and giving it up.
proof fn lemma_dropping(root: Seq<char>, name: Seq<char>, r: Seq<ReplyView>, at: nat)
    ensures
        opening(root, at)(r) is Some ==> dropping(root, name, at)(r) == opening(root, at)(r),
        opened(store_of(root), r, at) matches Ok((sessions, n)) ==> {
            let left = without(sessions, name);
            &&& dropping(root, name, at)(r) == closing(root, left, n)(r)
            &&& closed_with(store_of(root), left, r, n) matches Ok((_, k)) ==> drops_to(
                root,
                name,
                r,
                at,
                k,
            ) && dropping(root, name, at)(r) is None
        },
{
    reveal(opened);
    reveal(closed_with);
    reveal(opening);
    reveal(closing);
    reveal(dropping);
    reveal(drops_to);
}

/// The replies to dropping records.
spec fn drop_replies(file: RecordsFile) -> Seq<ReplyView> {
    opening_replies(file) + closing_replies()
}

/// Dropping records.
proof fn lemma_drops(
    root: Seq<char>,
    name: Seq<char>,
    file: RecordsFile,
    world: Surroundings,
    replies: Seq<ReplyView>,
    steps: nat,
)
    requires
        steps >= 8,
    ensures
        ({
            let all = replies + drop_replies(file);
            &&& onward(dropping(root, name, replies.len()), root, file, world, replies, steps) == (
                Some(without(contents(file), name)),
                all,
                (steps - drop_replies(file).len()) as nat,
            )
            &&& forall|r: Seq<ReplyView>|
                all.is_prefix_of(r) ==> #[trigger] drops_to(
                    root,
                    name,
                    r,
                    replies.len(),
                    all.len(),
                )
        }),
{
    let at = replies.len();
    let left = without(contents(file), name);
    let some = replies + opening_replies(file);
    let all = replies + drop_replies(file);
    let whole = dropping(root, name, at);
    let first = opening(root, at);
    let second = closing(root, left, some.len());
    let left_steps = (steps - opening_replies(file).len()) as nat;
    assert(all =~= some + closing_replies());
    assert(some.is_prefix_of(all));
    lemma_opens(root, file, world, replies, steps);
    lemma_closes(root, left, file, world, some, left_steps);
    assert forall|r: Seq<ReplyView>|
        replies.is_prefix_of(r) && #[trigger] first(r) is Some implies whole(r) == first(r) by {
        lemma_dropping(root, name, r, at);
    }
    lemma_part(whole, first, root, file, world, replies, steps);
    assert forall|r: Seq<ReplyView>|
        some.is_prefix_of(r) && #[trigger] second(r) is Some implies whole(r) == second(r) by {
        assert(opened(store_of(root), r, at) is Ok);
        lemma_dropping(root, name, r, at);
    }
    lemma_part(whole, second, root, file, world, some, left_steps);
    assert forall|r: Seq<ReplyView>| all.is_prefix_of(r) implies #[trigger] drops_to(
        root,
        name,
        r,
        at,
        all.len(),
    ) && whole(r) is None by {
        lemma_prefix(some, all, r);
        assert(opened(store_of(root), r, at) is Ok);
        assert(closed_with(store_of(root), left, r, some.len()) is Ok);
        lemma_dropping(root, name, r, at);
    }
    assert(all.is_prefix_of(all));
    assert(drops_to(root, name, all, at, all.len()));
}

/// Reading the records: taking the lock and reading, then giving it up.
proof fn lemma_loading(root: Seq<char>, r: Seq<ReplyView>, at: nat)
    ensures
        opening(root, at)(r) is Some ==> loading(root, at)(r) == opening(root, at)(r),
        opened(store_of(root), r, at) matches Ok((sessions, n)) ==> {
            if n < r.len() {
                r[n as int] is Completed ==> loads_to(root, r, at, sessions, n + 1) && loading(
                    root,
                    at,
                )(r) is None
            } else {
                loading(root, at)(r) == Some(
                    ActionView::Unlock { path: store_of(root).lock_path },
                )
            }
        },
{
    reveal(opened);
    reveal(opening);
    reveal(loading);
    reveal(loads_to);
}

/// The replies to reading the records.
spec fn load_replies(file: RecordsFile) -> Seq<ReplyView> {
    opening_replies(file).push(ReplyView::Completed)
}

/// Reading the records.
proof fn lemma_loads(
    root: Seq<char>,
    file: RecordsFile,
    world: Surroundings,
    replies: Seq<ReplyView>,
    steps: nat,
)
    requires
        steps >= 6,
    ensures
        ({
            let all = replies + load_replies(file);
            &&& onward(loading(root, replies.len()), root, file, world, replies, steps) == (
                file,
                all,
                (steps - load_replies(file).len()) as nat,
            )
            &&& forall|r: Seq<ReplyView>|
                all.is_prefix_of(r) ==> #[trigger] loads_to(
                    root,
                    r,
                    replies.len(),
                    contents(file),
                    all.len(),
                )
        }),
{
    let at = replies.len();
    let some = replies + opening_replies(file);
    let all = replies + load_replies(file);
    let whole = loading(root, at);
    let first = opening(root, at);
    assert(all =~= some.push(ReplyView::Completed));
    assert(some.is_prefix_of(all));
    lemma_opens(root, file, world, replies, steps);
    assert forall|r: Seq<ReplyView>|
        replies.is_prefix_of(r) && #[trigger] first(r) is Some implies whole(r) == first(r) by {
        lemma_loading(root, r, at);
    }
    lemma_part(whole, first, root, file, world, replies, steps);
    assert forall|r: Seq<ReplyView>| all.is_prefix_of(r) implies #[trigger] loads_to(
        root,
        r,
        at,
        contents(file),
        all.len(),
    ) && whole(r) is None by {
        lemma_prefix(some, all, r);
        assert(r[some.len() as int] == all[some.len() as int]);
        assert(opened(store_of(root), r, at) is Ok);
        lemma_loading(root, r, at);
    }
    let left = (steps - opening_replies(file).len()) as nat;
    assert(onward(whole, root, file, world, some, left) == onward(
        whole,
        root,
        file,
        world,
        all,
        (left - 1) as nat,
    )) by {
        assert(some.is_prefix_of(some));
        assert(opened(store_of(root), some, at) is Ok);
        lemma_loading(root, some, at);
    }
    assert(all.is_prefix_of(all));
    assert(loads_to(root, all, at, contents(file), all.len()));
}

/// Adding a record: taking the lock and reading, reading the clock, then writing and
/// giving the lock up.
proof fn lemma_recording(
    root: Seq<char>,
    name: Seq<char>,
    branch: Seq<char>,
    session_id: Seq<char>,
    r: Seq<ReplyView>,
    at: nat,
)
    ensures
        ({
            let whole = recording(root, name, branch, session_id, at);
            &&& opening(root, at)(r) is Some ==> whole(r) == opening(root, at)(r)
            &&& opened(store_of(root), r, at) matches Ok((sessions, n)) ==> {
                if n < r.len() {
                    r[n as int] matches ReplyView::Clock(seconds) ==> {
                        let record = WorktreeSessionView {
                            worktree_name: name,
                            branch,
                            session_id,
                            created_at: stamp(seconds),
                        };
                        let more = sessions.push(record);
                        &&& whole(r) == closing(root, more, n + 1)(r)
                        &&& closed_with(store_of(root), more, r, n + 1) matches Ok((_, k))
                            ==> records_to(root, name, branch, session_id, r, at, k) && whole(
                            r,
                        ) is None
                    }
                } else {
                    whole(r) == Some(ActionView::ReadClock)
                }
            }
        }),
{
    reveal(opened);
    reveal(closed_with);
    reveal(opening);
    reveal(closing);
    reveal(recording);
    reveal(records_to);
}

/// The replies to adding a record.
spec fn record_replies(file: RecordsFile, world: Surroundings) -> Seq<ReplyView> {
    opening_replies(file).push(ReplyView::Clock(world.seconds)) + closing_replies()
}

/// Adding a record.
proof fn lemma_records(
    root: Seq<char>,
    name: Seq<char>,
    branch: Seq<char>,
    session_id: Seq<char>,
    file: RecordsFile,
    world: Surroundings,
    replies: Seq<ReplyView>,
    steps: nat,
)
    requires
        steps >= 9,
    ensures
        ({
            let all = replies + record_replies(file, world);
            let record = WorktreeSessionView {
                worktree_name: name,
                branch,
                session_id,
                created_at: stamp(world.seconds),
            };
            &&& onward(
                recording(root, name, branch, session_id, replies.len()),
                root,
                file,
                world,
                replies,
                steps,
            ) == (
                Some(contents(file).push(record)),
                all,
                (steps - record_replies(file, world).len()) as nat,
            )
            &&& forall|r: Seq<ReplyView>|
                all.is_prefix_of(r) ==> #[trigger] records_to(
                    root,
                    name,
                    branch,
                    session_id,
                    r,
                    replies.len(),
                    all.len(),
                )
        }),
{
    let at = replies.len();
    let record = WorktreeSessionView {
        worktree_name: name,
        branch,
        session_id,
        created_at: stamp(world.seconds),
    };
    let more = contents(file).push(record);
    let some = replies + opening_replies(file);
    let timed = some.push(ReplyView::Clock(world.seconds));
    let all = replies + record_replies(file, world);
    let left = (steps - opening_replies(file).len()) as nat;
    let whole = recording(root, name, branch, session_id, at);
    let first = opening(root, at);
    let last = closing(root, more, timed.len());
    assert(all =~= timed + closing_replies());
    assert(some.is_prefix_of(timed));
    assert(timed.is_prefix_of(all));
    lemma_opens(root, file, world, replies, steps);
    assert forall|r: Seq<ReplyView>|
        replies.is_prefix_of(r) && #[trigger] first(r) is Some implies whole(r) == first(r) by {
        lemma_recording(root, name, branch, session_id, r, at);
    }
    lemma_part(whole, first, root, file, world, replies, steps);
    assert(onward(whole, root, file, world, some, left) == onward(
        whole,
        root,
        file,
        world,
        timed,
        (left - 1) as nat,
    )) by {
        assert(some.is_prefix_of(some));
        assert(opened(store_of(root), some, at) is Ok);
        lemma_recording(root, name, branch, session_id, some, at);
    }
    lemma_closes(root, more, file, world, timed, (left - 1) as nat);
    assert forall|r: Seq<ReplyView>|
        timed.is_prefix_of(r) && #[trigger] last(r) is Some implies whole(r) == last(r) by {
        lemma_prefix(some, timed, r);
        assert(r[some.len() as int] == timed[some.len() as int]);
        assert(opened(store_of(root), r, at) is Ok);
        lemma_recording(root, name, branch, session_id, r, at);
    }
    lemma_part(whole, last, root, file, world, timed, (left - 1) as nat);
    assert forall|r: Seq<ReplyView>| all.is_prefix_of(r) implies #[trigger] records_to(
        root,
        name,
        branch,
        session_id,
        r,
        at,
        all.len(),
    ) && whole(r) is None by {
        lemma_prefix(timed, all, r);
        lemma_prefix(some, timed, r);
        assert(r[some.len() as int] == timed[some.len() as int]);
        assert(opened(store_of(root), r, at) is Ok);
        assert(closed_with(store_of(root), more, r, timed.len()) is Ok);
        lemma_recording(root, name, branch, session_id, r, at);
    }
    assert(all.is_prefix_of(all));
    assert(records_to(root, name, branch, session_id, all, at, all.len()));
}

// ---------------------------------------------------------------------------
// Removing
// ---------------------------------------------------------------------------

/// The questions of removing a worktree.
#[verifier::opaque]
spec fn taking(root: Seq<char>, name: Seq<char>, at: nat) -> spec_fn(Seq<ReplyView>) -> Option<
    ActionView,
> {
    |r: Seq<ReplyView>| asked(worktree_remove_flow(root, name, r, at))
}

/// Whether removing a worktree succeeds, with `n` the next reply.
#[verifier::opaque]
spec fn takes_to(
    root: Seq<char>,
    name: Seq<char>,
    r: Seq<ReplyView>,
    at: nat,
    n: nat,
) -> bool {
    worktree_remove_flow(root, name, r, at) == Ok::<_, HaltView<DomainErrorView>>(((), n))
}

/// The replies to removing a worktree.
spec fn take_replies(root: Seq<char>, name: Seq<char>, world: Surroundings) -> Seq<ReplyView> {
    let path = worktree_path_of(root, name);
    seq![
        ReplyView::Flag(true),
        (world.rest)(git(root, seq!["worktree"@, "remove"@, "--force"@, path])),
    ]
}

/// Removing a worktree.
proof fn lemma_takes(
    root: Seq<char>,
    name: Seq<char>,
    file: RecordsFile,
    world: Surroundings,
    replies: Seq<ReplyView>,
    steps: nat,
)
    requires
        steps >= 2,
        can_be_removed(world, root, name),
    ensures
        ({
            let all = replies + take_replies(root, name, world);
            &&& onward(taking(root, name, replies.len()), root, file, world, replies, steps) == (
                file,
                all,
                (steps - 2) as nat,
            )
            &&& forall|r: Seq<ReplyView>|
                all.is_prefix_of(r) ==> #[trigger] takes_to(
                    root,
                    name,
                    r,
                    replies.len(),
                    all.len(),
                )
        }),
{
    reveal(taking);
    reveal(takes_to);
    reveal_with_fuel(onward, 3);
    let all = replies + take_replies(root, name, world);
    assert(onward(taking(root, name, replies.len()), root, file, world, replies, steps).1 =~= all);
}

/// The questions of `worktree_remove`.
#[verifier::opaque]
spec fn remove_questions(server: ServerView, name: Seq<char>) -> spec_fn(Seq<ReplyView>) -> Option<
    ActionView,
> {
    questions(removing(server, name))
}

/// `worktree_remove`: reading the records, removing the worktree, dropping the records.
proof fn lemma_removing(
    server: ServerView,
    root: Seq<char>,
    name: Seq<char>,
    r: Seq<ReplyView>,
    sessions: Seq<WorktreeSessionView>,
    n1: nat,
    n2: nat,
    n3: nat,
)
    requires
        server.repo_root == Some(root),
    ensures
        ({
            let whole = remove_questions(server, name);
            &&& loading(root, 0)(r) is Some ==> whole(r) == loading(root, 0)(r)
            &&& loads_to(root, r, 0, sessions, n1) ==> match ownership(
                sessions,
                name,
                server.session_id,
            ) {
                Ok(_) => {
                    &&& taking(root, name, n1)(r) is Some ==> whole(r) == taking(root, name, n1)(r)
                    &&& takes_to(root, name, r, n1, n2) ==> {
                        &&& dropping(root, name, n2)(r) is Some ==> whole(r) == dropping(
                            root,
                            name,
                            n2,
                        )(r)
                        &&& drops_to(root, name, r, n2, n3) ==> whole(r) is None && succeeds_with(
                            removing(server, name)(r),
                            "Worktree '"@ + name + "' removed."@,
                        )
                    }
                },
                Err(e) => whole(r) is None && fails_with(removing(server, name)(r), told(e)),
            }
        }),
{
    reveal(loading);
    reveal(loads_to);
    reveal(taking);
    reveal(takes_to);
    reveal(dropping);
    reveal(drops_to);
    reveal(remove_questions);
}

/// A worktree is removed for its owner, and where it has none, together with its
/// records. Another session is told whose it is, and nothing changes.
pub proof fn law_worktrees_are_removed_for_their_owner(
    server: ServerView,
    root: Seq<char>,
    name: Seq<char>,
    file: RecordsFile,
    world: Surroundings,
)
    requires
        server.repo_root == Some(root),
        can_be_removed(world, root, name),
    ensures
        match owner_in(contents(file), name) {
            Some(owner) if owner != server.session_id => {
                &&& fails_with(
                    removed(server, name, file, world).0,
                    told(
                        DomainErrorView::SessionMismatch {
                            worktree: name,
                            owner,
                            caller: server.session_id,
                        },
                    ),
                )
                &&& removed(server, name, file, world).1 == file
            },
            _ => {
                &&& succeeds_with(
                    removed(server, name, file, world).0,
                    "Worktree '"@ + name + "' removed."@,
                )
                &&& removed(server, name, file, world).1 == Some(without(contents(file), name))
            },
        },
{
    let whole = remove_questions(server, name);
    assert(whole == questions(removing(server, name))) by {
        reveal(remove_questions);
    }
    let start = Seq::<ReplyView>::empty();
    let read = start + load_replies(file);
    let taken = read + take_replies(root, name, world);
    let dropped = taken + drop_replies(file);
    let first = loading(root, 0);
    let second = taking(root, name, read.len());
    let third = dropping(root, name, taken.len());
    let n1 = (plenty() - load_replies(file).len()) as nat;
    let n2 = (n1 - 2) as nat;
    let sessions = contents(file);
    let (k1, k2, k3) = (read.len(), taken.len(), dropped.len());
    assert(start.is_prefix_of(read));
    assert(read.is_prefix_of(taken));
    assert(taken.is_prefix_of(dropped));
    lemma_loads(root, file, world, start, plenty());
    assert forall|r: Seq<ReplyView>|
        start.is_prefix_of(r) && #[trigger] first(r) is Some implies whole(r) == first(r) by {
        lemma_removing(server, root, name, r, sessions, k1, k2, k3);
    }
    lemma_part(whole, first, root, file, world, start, plenty());
    assert(read.is_prefix_of(read));
    assert(loads_to(root, read, 0, sessions, k1));
    lemma_removing(server, root, name, read, sessions, k1, k2, k3);
    if ownership(sessions, name, server.session_id) is Ok {
        lemma_takes(root, name, file, world, read, n1);
        assert forall|r: Seq<ReplyView>|
            read.is_prefix_of(r) && #[trigger] second(r) is Some implies whole(r) == second(r) by {
            assert(loads_to(root, r, 0, sessions, k1));
            lemma_removing(server, root, name, r, sessions, k1, k2, k3);
        }
        lemma_part(whole, second, root, file, world, read, n1);
        lemma_drops(root, name, file, world, taken, n2);
        assert forall|r: Seq<ReplyView>|
            taken.is_prefix_of(r) && #[trigger] third(r) is Some implies whole(r) == third(r) by {
            lemma_prefix(read, taken, r);
            assert(loads_to(root, r, 0, sessions, k1));
            assert(takes_to(root, name, r, k1, k2));
            lemma_removing(server, root, name, r, sessions, k1, k2, k3);
        }
        lemma_part(whole, third, root, file, world, taken, n2);
        lemma_prefix(read, taken, dropped);
        assert(dropped.is_prefix_of(dropped));
        assert(loads_to(root, dropped, 0, sessions, k1));
        assert(takes_to(root, name, dropped, k1, k2));
        assert(drops_to(root, name, dropped, k2, k3));
        lemma_removing(server, root, name, dropped, sessions, k1, k2, k3);
    }
}

// ---------------------------------------------------------------------------
// Making
// ---------------------------------------------------------------------------

/// The questions of making a worktree.
#[verifier::opaque]
spec fn making(
    root: Seq<char>,
    name: Seq<char>,
    branch: Seq<char>,
    base: Option<Seq<char>>,
) -> spec_fn(Seq<ReplyView>) -> Option<ActionView> {
    |r: Seq<ReplyView>| asked(worktree_add_flow(root, name, branch, base, r, 0))
}

/// Whether making a worktree succeeds, at `path` and with `n` the next reply.
#[verifier::opaque]
spec fn makes_to(
    root: Seq<char>,
    name: Seq<char>,
    branch: Seq<char>,
    base: Option<Seq<char>>,
    r: Seq<ReplyView>,
    path: Seq<char>,
    n: nat,
) -> bool {
    worktree_add_flow(root, name, branch, base, r, 0) == Ok::<_, HaltView<DomainErrorView>>(
        (path, n),
    )
}

/// The replies to the checks before a branch is made.
spec fn check_replies(root: Seq<char>, branch: Seq<char>, world: Surroundings) -> Seq<ReplyView> {
    let waiver = (world.rest)(ActionView::ReadVariable { name: allow_dirty_variable() });
    let found = (world.rest)(
        git(root, seq!["show-ref"@, "--verify"@, "--quiet"@, "refs/heads/"@ + branch]),
    );
    if is_rooted(root) {
        seq![waiver, ReplyView::Flag(false), found]
    } else {
        let home = (world.rest)(ActionView::MakeAbsolute { path: root });
        seq![waiver, home, ReplyView::Flag(false), found]
    }
}

/// The replies to the making of a branch.
spec fn base_replies(
    root: Seq<char>,
    branch: Seq<char>,
    base: Option<Seq<char>>,
    world: Surroundings,
) -> Seq<ReplyView> {
    match base {
        Some(b) => {
            let made = (world.rest)(git(root, seq!["branch"@, branch, b]));
            let listed = (world.rest)(git(root, seq!["worktree"@, "list"@, "--porcelain"@]));
            if waives(
                (world.rest)(ActionView::ReadVariable { name: allow_dirty_variable() })->Variable_0,
            ) {
                seq![made]
            } else {
                let worktrees = worktrees_in(trimmed(listed->Output_0.stdout));
                let i = checked_out_at(worktrees, b);
                if i < worktrees.len() {
                    let status = git(worktrees[i as int].path, seq!["status"@, "--porcelain"@]);
                    seq![listed, (world.rest)(status), made]
                } else {
                    seq![listed, made]
                }
            }
        },
        None => seq![(world.rest)(git(root, seq!["branch"@, branch]))],
    }
}

/// The replies to making a worktree.
spec fn make_replies(
    root: Seq<char>,
    name: Seq<char>,
    branch: Seq<char>,
    base: Option<Seq<char>>,
    world: Surroundings,
) -> Seq<ReplyView> {
    let made = git(root, seq!["worktree"@, "add"@, place_in(world, root, name), branch]);
    (check_replies(root, branch, world) + base_replies(root, branch, base, world)).push(
        (world.rest)(made),
    )
}

/// The checks before a branch is made, as long as nothing is in the way: whether that
/// of a base is waived, and where the worktree goes.
#[verifier::opaque]
spec fn checked(
    root: Seq<char>,
    name: Seq<char>,
    branch: Seq<char>,
    replies: Seq<ReplyView>,
) -> FlowView<(bool, Seq<char>), DomainErrorView> {
    match variable(allow_dirty_variable(), replies, 0) {
        Ok((value, n)) => match home_flow(root, replies, n) {
            Ok((home, n)) => match flag::<DomainErrorView>(
                ActionView::PathExists { path: worktree_path_of(home, name) },
                replies,
                n,
            ) {
                Ok((false, n)) => match branch_exists_flow(root, branch, replies, n) {
                    Ok((false, n)) => Ok(((waives(value), worktree_path_of(home, name)), n)),
                    Ok((true, _)) => Err(HaltView::Mismatch),
                    Err(h) => Err(h),
                },
                Ok((true, _)) => Err(HaltView::Mismatch),
                Err(h) => Err(h),
            },
            Err(h) => Err(h),
        },
        Err(h) => Err(h),
    }
}

/// The questions of the checks.
#[verifier::opaque]
spec fn checking(root: Seq<char>, name: Seq<char>, branch: Seq<char>) -> spec_fn(
    Seq<ReplyView>,
) -> Option<ActionView> {
    |r: Seq<ReplyView>| asked(checked(root, name, branch, r))
}

/// The questions of making a branch.
#[verifier::opaque]
spec fn basing(
    root: Seq<char>,
    branch: Seq<char>,
    base: Option<Seq<char>>,
    waived: bool,
    at: nat,
) -> spec_fn(Seq<ReplyView>) -> Option<ActionView> {
    |r: Seq<ReplyView>| asked(base_branch_flow(root, branch, base, waived, r, at))
}

/// Whether making a branch succeeds, with `n` the next reply.
#[verifier::opaque]
spec fn bases_to(
    root: Seq<char>,
    branch: Seq<char>,
    base: Option<Seq<char>>,
    waived: bool,
    r: Seq<ReplyView>,
    at: nat,
    n: nat,
) -> bool {
    base_branch_flow(root, branch, base, waived, r, at) matches Ok((_, k)) && k == n
}

/// The checks.
proof fn lemma_checks(
    root: Seq<char>,
    name: Seq<char>,
    branch: Seq<char>,
    base: Option<Seq<char>>,
    file: RecordsFile,
    world: Surroundings,
    waiver: Option<Seq<char>>,
)
    requires
        can_be_made(world, root, name, branch, base),
        (world.rest)(ActionView::ReadVariable { name: allow_dirty_variable() })
            == ReplyView::Variable(waiver),
    ensures
        ({
            let all = check_replies(root, branch, world);
            &&& onward(
                checking(root, name, branch),
                root,
                file,
                world,
                Seq::empty(),
                plenty(),
            ) == (file, all, (plenty() - all.len()) as nat)
            &&& forall|r: Seq<ReplyView>|
                all.is_prefix_of(r) ==> #[trigger] checked(root, name, branch, r) == Ok::<
                    _,
                    HaltView<DomainErrorView>,
                >(((waives(waiver), place_in(world, root, name)), all.len()))
        }),
{
    reveal(checked);
    reveal(checking);
    reveal_with_fuel(onward, 5);
    let all = check_replies(root, branch, world);
    assert(onward(
        checking(root, name, branch),
        root,
        file,
        world,
        Seq::empty(),
        plenty(),
    ).1 =~= all);
}

/// Making a branch.
proof fn lemma_bases(
    root: Seq<char>,
    branch: Seq<char>,
    base: Option<Seq<char>>,
    file: RecordsFile,
    world: Surroundings,
    waiver: Option<Seq<char>>,
    replies: Seq<ReplyView>,
    steps: nat,
)
    requires
        steps >= 3,
        (world.rest)(ActionView::ReadVariable { name: allow_dirty_variable() })
            == ReplyView::Variable(waiver),
        match base {
            Some(b) => (waives(waiver) || base_is_clean(world, root, b)) && git_does(
                world,
                root,
                seq!["branch"@, branch, b],
            ),
            None => git_does(world, root, seq!["branch"@, branch]),
        },
    ensures
        ({
            let new = base_replies(root, branch, base, world);
            let all = replies + new;
            &&& onward(
                basing(root, branch, base, waives(waiver), replies.len()),
                root,
                file,
                world,
                replies,
                steps,
            ) == (file, all, (steps - new.len()) as nat)
            &&& forall|r: Seq<ReplyView>|
                all.is_prefix_of(r) ==> #[trigger] bases_to(
                    root,
                    branch,
                    base,
                    waives(waiver),
                    r,
                    replies.len(),
                    all.len(),
                )
        }),
{
    reveal(basing);
    reveal(bases_to);
    reveal_with_fuel(onward, 4);
    let all = replies + base_replies(root, branch, base, world);
    assert(onward(
        basing(root, branch, base, waives(waiver), replies.len()),
        root,
        file,
        world,
        replies,
        steps,
    ).1 =~= all);
}

/// Making a worktree: the checks, making the branch, making the worktree.
proof fn lemma_making(
    root: Seq<char>,
    name: Seq<char>,
    branch: Seq<char>,
    base: Option<Seq<char>>,
    r: Seq<ReplyView>,
    waived: bool,
    path: Seq<char>,
    n1: nat,
    n2: nat,
)
    ensures
        ({
            let whole = making(root, name, branch, base);
            let second = basing(root, branch, base, waived, n1);
            let last = git(root, seq!["worktree"@, "add"@, path, branch]);
            &&& checking(root, name, branch)(r) is Some ==> whole(r) == checking(
                root,
                name,
                branch,
            )(r)
            &&& checked(root, name, branch, r) == Ok::<_, HaltView<DomainErrorView>>(
                ((waived, path), n1),
            ) ==> {
                &&& second(r) is Some ==> whole(r) == second(r)
                &&& bases_to(root, branch, base, waived, r, n1, n2) ==> if n2 < r.len() {
                    r[n2 as int] matches ReplyView::Output(o) && succeeded(o) ==> makes_to(
                        root,
                        name,
                        branch,
                        base,
                        r,
                        path,
                        n2 + 1,
                    ) && whole(r) is None
                } else {
                    whole(r) == Some(last)
                }
            }
        }),
{
    reveal(making);
    reveal(makes_to);
    reveal(checked);
    reveal(checking);
    reveal(basing);
    reveal(bases_to);
}

/// Making a worktree.
proof fn lemma_makes(
    root: Seq<char>,
    name: Seq<char>,
    branch: Seq<char>,
    base: Option<Seq<char>>,
    file: RecordsFile,
    world: Surroundings,
)
    requires
        can_be_made(world, root, name, branch, base),
    ensures
        ({
            let all = make_replies(root, name, branch, base, world);
            &&& all.len() <= 8
            &&& onward(
                making(root, name, branch, base),
                root,
                file,
                world,
                Seq::empty(),
                plenty(),
            ) == (file, all, (plenty() - all.len()) as nat)
            &&& forall|r: Seq<ReplyView>|
                all.is_prefix_of(r) ==> #[trigger] makes_to(
                    root,
                    name,
                    branch,
                    base,
                    r,
                    place_in(world, root, name),
                    all.len(),
                )
        }),
{
    let start = Seq::<ReplyView>::empty();
    let some = check_replies(root, branch, world);
    let based = some + base_replies(root, branch, base, world);
    let all = make_replies(root, name, branch, base, world);
    let waiver = (world.rest)(
        ActionView::ReadVariable { name: allow_dirty_variable() },
    )->Variable_0;
    let waived = waives(waiver);
    let whole = making(root, name, branch, base);
    let first = checking(root, name, branch);
    let path = place_in(world, root, name);
    let c = some.len();
    let second = basing(root, branch, base, waived, c);
    let n1 = (plenty() - c) as nat;
    let n2 = (n1 - base_replies(root, branch, base, world).len()) as nat;
    let k = based.len();
    assert(some.is_prefix_of(based));
    assert(based.is_prefix_of(all));
    lemma_checks(root, name, branch, base, file, world, waiver);
    assert forall|r: Seq<ReplyView>|
        start.is_prefix_of(r) && #[trigger] first(r) is Some implies whole(r) == first(r) by {
        lemma_making(root, name, branch, base, r, waived, path, c, k);
    }
    lemma_part(whole, first, root, file, world, start, plenty());
    lemma_bases(root, branch, base, file, world, waiver, some, n1);
    assert forall|r: Seq<ReplyView>|
        some.is_prefix_of(r) && #[trigger] second(r) is Some implies whole(r) == second(r) by {
        assert(checked(root, name, branch, r) is Ok);
        lemma_making(root, name, branch, base, r, waived, path, c, k);
    }
    lemma_part(whole, second, root, file, world, some, n1);
    assert(onward(whole, root, file, world, based, n2) == onward(
        whole,
        root,
        file,
        world,
        all,
        (n2 - 1) as nat,
    )) by {
        assert(based.is_prefix_of(based));
        assert(checked(root, name, branch, based) is Ok);
        assert(bases_to(root, branch, base, waived, based, c, k));
        lemma_making(root, name, branch, base, based, waived, path, c, k);
    }
    assert forall|r: Seq<ReplyView>| all.is_prefix_of(r) implies #[trigger] makes_to(
        root,
        name,
        branch,
        base,
        r,
        path,
        all.len(),
    ) && whole(r) is None by {
        lemma_prefix(based, all, r);
        lemma_prefix(some, based, r);
        assert(r[k as int] == all[k as int]);
        assert(checked(root, name, branch, r) is Ok);
        assert(bases_to(root, branch, base, waived, r, c, k));
        lemma_making(root, name, branch, base, r, waived, path, c, k);
    }
    assert(all.is_prefix_of(all));
    assert(makes_to(root, name, branch, base, all, path, all.len()));
}

/// The questions of `worktree_add`.
#[verifier::opaque]
spec fn add_questions(
    server: ServerView,
    name: Seq<char>,
    branch: Seq<char>,
    base: Option<Seq<char>>,
) -> spec_fn(Seq<ReplyView>) -> Option<ActionView> {
    questions(adding(server, name, branch, base))
}

/// `worktree_add`: making the worktree, adding its record.
proof fn lemma_adding(
    server: ServerView,
    root: Seq<char>,
    name: Seq<char>,
    branch: Seq<char>,
    base: Option<Seq<char>>,
    r: Seq<ReplyView>,
    path: Seq<char>,
    n1: nat,
    n2: nat,
)
    requires
        server.repo_root == Some(root),
    ensures
        ({
            let whole = add_questions(server, name, branch, base);
            let first = making(root, name, branch, base);
            let second = recording(root, name, branch, server.session_id, n1);
            &&& first(r) is Some ==> whole(r) == first(r)
            &&& makes_to(root, name, branch, base, r, path, n1) ==> {
                &&& second(r) is Some ==> whole(r) == second(r)
                &&& records_to(root, name, branch, server.session_id, r, n1, n2) ==> whole(
                    r,
                ) is None && succeeds_with(
                    adding(server, name, branch, base)(r),
                    created_text(path, branch, server.session_id),
                )
            }
        }),
{
    reveal(making);
    reveal(makes_to);
    reveal(recording);
    reveal(records_to);
    reveal(add_questions);
}

/// The record of a worktree that a session makes.
pub open spec fn record_of(
    server: ServerView,
    name: Seq<char>,
    branch: Seq<char>,
    world: Surroundings,
) -> WorktreeSessionView {
    WorktreeSessionView {
        worktree_name: name,
        branch,
        session_id: server.session_id,
        created_at: stamp(world.seconds),
    }
}

/// A worktree is made where nothing stands in the way, at an absolute path, and it is
/// recorded for the session that makes it.
pub proof fn law_made_worktrees_are_recorded(
    server: ServerView,
    root: Seq<char>,
    name: Seq<char>,
    branch: Seq<char>,
    base: Option<Seq<char>>,
    file: RecordsFile,
    world: Surroundings,
)
    requires
        server.repo_root == Some(root),
        can_be_made(world, root, name, branch, base),
    ensures
        succeeds_with(
            added(server, name, branch, base, file, world).0,
            created_text(place_in(world, root, name), branch, server.session_id),
        ),
        is_absolute(place_in(world, root, name)),
        added(server, name, branch, base, file, world).1 == Some(
            contents(file).push(record_of(server, name, branch, world)),
        ),
{
    let whole = add_questions(server, name, branch, base);
    assert(whole == questions(adding(server, name, branch, base))) by {
        reveal(add_questions);
    }
    let start = Seq::<ReplyView>::empty();
    let made = make_replies(root, name, branch, base, world);
    let recorded = made + record_replies(file, world);
    let first = making(root, name, branch, base);
    let second = recording(root, name, branch, server.session_id, made.len());
    let n1 = (plenty() - made.len()) as nat;
    let (k1, k2) = (made.len(), recorded.len());
    let path = place_in(world, root, name);
    assert(made.is_prefix_of(recorded));
    lemma_makes(root, name, branch, base, file, world);
    lemma_worktree_path_is_absolute(home_in(world, root)->0, name);
    assert forall|r: Seq<ReplyView>|
        start.is_prefix_of(r) && #[trigger] first(r) is Some implies whole(r) == first(r) by {
        lemma_adding(server, root, name, branch, base, r, path, k1, k2);
    }
    lemma_part(whole, first, root, file, world, start, plenty());
    lemma_records(root, name, branch, server.session_id, file, world, made, n1);
    assert forall|r: Seq<ReplyView>|
        made.is_prefix_of(r) && #[trigger] second(r) is Some implies whole(r) == second(r) by {
        assert(makes_to(root, name, branch, base, r, path, k1));
        lemma_adding(server, root, name, branch, base, r, path, k1, k2);
    }
    lemma_part(whole, second, root, file, world, made, n1);
    assert(recorded.is_prefix_of(recorded));
    assert(makes_to(root, name, branch, base, recorded, path, k1));
    assert(records_to(root, name, branch, server.session_id, recorded, k1, k2));
    lemma_adding(server, root, name, branch, base, recorded, path, k1, k2);
}

/// A worktree that a session makes can be removed by no other session, and by the one
/// that made it; the records are then as they were before.
pub proof fn law_made_worktrees_belong_to_their_maker(
    maker: ServerView,
    other: ServerView,
    root: Seq<char>,
    name: Seq<char>,
    branch: Seq<char>,
    base: Option<Seq<char>>,
    file: RecordsFile,
    before: Surroundings,
    after: Surroundings,
)
    requires
        maker.repo_root == Some(root),
        other.repo_root == Some(root),
        other.session_id != maker.session_id,
        can_be_made(before, root, name, branch, base),
        can_be_removed(after, root, name),
        forall|i: int|
            0 <= i < contents(file).len() ==> #[trigger] contents(file)[i].worktree_name != name,
    ensures
        ({
            let made = added(maker, name, branch, base, file, before).1;
            &&& fails_with(
                removed(other, name, made, after).0,
                told(
                    DomainErrorView::SessionMismatch {
                        worktree: name,
                        owner: maker.session_id,
                        caller: other.session_id,
                    },
                ),
            )
            &&& removed(other, name, made, after).1 == made
            &&& succeeds_with(
                removed(maker, name, made, after).0,
                "Worktree '"@ + name + "' removed."@,
            )
            &&& removed(maker, name, made, after).1 == Some(contents(file))
        }),
{
    let record = record_of(maker, name, branch, before);
    let made = Some(contents(file).push(record));
    law_made_worktrees_are_recorded(maker, root, name, branch, base, file, before);
    assert(owner_in(contents(file), name) is None) by {
        law_releasing_is_idempotent(contents(file), name);
        law_releasing_frees(contents(file), name, maker.session_id);
    }
    law_registering_gives_ownership(contents(file), record, maker.session_id);
    law_releasing_undoes_registering(contents(file), record);
    law_worktrees_are_removed_for_their_owner(other, root, name, made, after);
    law_worktrees_are_removed_for_their_owner(maker, root, name, made, after);
}

// ---------------------------------------------------------------------------
// Releasing
// ---------------------------------------------------------------------------

/// Releasing drops the records.
proof fn lemma_freed(
    server: ServerView,
    root: Seq<char>,
    name: Seq<char>,
    file: RecordsFile,
    world: Surroundings,
)
    requires
        server.repo_root == Some(root),
    ensures
        succeeds_with(
            freed(server, name, file, world).0,
            "Session ownership released for worktree '"@ + name + "'."@,
        ),
        freed(server, name, file, world).1 == Some(without(contents(file), name)),
{
    let start = Seq::<ReplyView>::empty();
    let dropped = start + drop_replies(file);
    lemma_drops(root, name, file, world, start, plenty());
    assert(questions(freeing(server, name)) =~= dropping(root, name, 0)) by {
        reveal(dropping);
    }
    assert(dropped.is_prefix_of(dropped));
    assert(drops_to(root, name, dropped, 0, dropped.len()));
    reveal(drops_to);
}

/// Releasing a worktree succeeds for every session that has started, whoever owns the
/// worktree and whether it has an owner at all, and leaves it without one. Releasing
/// it once more succeeds and changes nothing.
pub proof fn law_releasing_always_succeeds(
    server: ServerView,
    root: Seq<char>,
    name: Seq<char>,
    file: RecordsFile,
    world: Surroundings,
)
    requires
        server.repo_root == Some(root),
    ensures
        ({
            let text = "Session ownership released for worktree '"@ + name + "'."@;
            let after = freed(server, name, file, world).1;
            &&& succeeds_with(freed(server, name, file, world).0, text)
            &&& after == Some(without(contents(file), name))
            &&& owner_in(contents(after), name) is None
            &&& succeeds_with(freed(server, name, after, world).0, text)
            &&& freed(server, name, after, world).1 == after
        }),
{
    lemma_freed(server, root, name, file, world);
    lemma_freed(server, root, name, freed(server, name, file, world).1, world);
    law_releasing_frees(contents(file), name, server.session_id);
    law_releasing_is_idempotent(contents(file), name);
}

/// A worktree left behind by a session that is gone cannot be removed by another
/// session; once that one has released it, it is removed.
pub proof fn law_orphans_can_be_removed_once_released(
    server: ServerView,
    root: Seq<char>,
    name: Seq<char>,
    owner: Seq<char>,
    file: RecordsFile,
    world: Surroundings,
)
    requires
        server.repo_root == Some(root),
        owner_in(contents(file), name) == Some(owner),
        owner != server.session_id,
        can_be_removed(world, root, name),
    ensures
        ({
            let after = freed(server, name, file, world).1;
            &&& fails_with(
                removed(server, name, file, world).0,
                told(
                    DomainErrorView::SessionMismatch {
                        worktree: name,
                        owner,
                        caller: server.session_id,
                    },
                ),
            )
            &&& removed(server, name, file, world).1 == file
            &&& succeeds_with(
                removed(server, name, after, world).0,
                "Worktree '"@ + name + "' removed."@,
            )
            &&& removed(server, name, after, world).1 == after
        }),
{
    let after = freed(server, name, file, world).1;
    lemma_freed(server, root, name, file, world);
    law_releasing_frees(contents(file), name, server.session_id);
    law_releasing_is_idempotent(contents(file), name);
    law_worktrees_are_removed_for_their_owner(server, root, name, file, world);
    law_worktrees_are_removed_for_their_owner(server, root, name, after, world);
}

/// Without the records of the worktrees that it was made for, a branch has none.
proof fn lemma_record_on_without(
    sessions: Seq<WorktreeSessionView>,
    name: Seq<char>,
    branch: Seq<char>,
)
    requires
        forall|i: int|
            0 <= i < sessions.len() && #[trigger] sessions[i].branch == branch
                ==> sessions[i].worktree_name == name,
    ensures
        record_on(without(sessions, name), branch) is None,
{
    broadcast use vstd::seq_lib::group_filter_ensures;
    let kept = without(sessions, name);
    assert forall|i: int| 0 <= i < kept.len() implies #[trigger] kept[i].branch != branch by {
        sessions.lemma_filter_contains_rev(
            |s: WorktreeSessionView| s.worktree_name != name,
            kept[i],
        );
        let j = choose|j: int| 0 <= j < sessions.len() && sessions[j] == kept[i];
        assert(sessions[j].branch == kept[i].branch);
    }
    lemma_no_record_on(kept, branch);
}

/// Where no record is of a branch, none is found.
proof fn lemma_no_record_on(sessions: Seq<WorktreeSessionView>, branch: Seq<char>)
    requires
        forall|i: int| 0 <= i < sessions.len() ==> #[trigger] sessions[i].branch != branch,
    ensures
        record_on(sessions, branch) is None,
    decreases sessions.len(),
{
    if sessions.len() > 0 {
        lemma_no_record_on(sessions.drop_first(), branch);
    }
}

/// The branch of a worktree left behind by a session that is gone can be neither
/// deleted nor merged by another session. Once that one has released the worktree,
/// deleting and merging it come to whatever git makes of them.
pub proof fn law_branches_of_orphans_are_free_once_released(
    server: ServerView,
    root: Seq<char>,
    name: Seq<char>,
    branch: Seq<char>,
    into_branch: Seq<char>,
    working_dir: Option<Seq<char>>,
    record: WorktreeSessionView,
    file: RecordsFile,
    world: Surroundings,
    replies: Seq<ReplyView>,
    at: nat,
)
    requires
        server.repo_root == Some(root),
        record_on(contents(file), branch) == Some(record),
        record.session_id != server.session_id,
        forall|i: int|
            0 <= i < contents(file).len() && #[trigger] contents(file)[i].branch == branch
                ==> contents(file)[i].worktree_name == name,
    ensures
        load_flow(store_of(root), replies, at) matches Ok((sessions, n)) ==> {
            let mismatch = told(
                DomainErrorView::SessionMismatch {
                    worktree: record.worktree_name,
                    owner: record.session_id,
                    caller: server.session_id,
                },
            );
            let deleted = branch_delete_tool(server, branch, working_dir, replies, at);
            let merged = merge_tool(server, branch, into_branch, working_dir, replies, at);
            &&& sessions == contents(file) ==> fails_with(deleted, mismatch) && fails_with(
                merged,
                mismatch,
            )
            &&& sessions == contents(freed(server, name, file, world).1) ==> {
                &&& deleted == match in_tool(
                    branch_delete_flow(root, branch, working_dir, replies, n),
                ) {
                    Ok((_, n)) => Ok(("Branch '"@ + branch + "' deleted."@, n)),
                    Err(h) => Err(h),
                }
                &&& merged == match in_tool(
                    merge_flow(root, branch, into_branch, working_dir, replies, n),
                ) {
                    Ok((result, n)) => Ok(
                        (
                            "Merged '"@ + branch + "' into '"@ + into_branch + "'.\n"@
                                + result.summary,
                            n,
                        ),
                    ),
                    Err(h) => Err(h),
                }
            }
        },
{
    lemma_freed(server, root, name, file, world);
    lemma_record_on_without(contents(file), name, branch);
}

} // verus!
