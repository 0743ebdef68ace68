//! What holds of the session records when several sessions change them at once.

use vstd::prelude::*;
use crate::domain::error::DomainErrorView;
use crate::domain::session::WorktreeSessionView;
use crate::infra::session_store::{
    acquired, load_flow, register_flow, save_flow, unregister_flow, without, SessionStoreView,
};
use crate::laws::driving::end_of;
use crate::laws::store::{contents, kept, new_record, RecordsFile};
use crate::protocol::{ActionView, FlowView, HaltView, ReplyView};

verus! {

/// A change of the records: what is read is changed and written back.
pub enum Update {
    Register { name: Seq<char>, branch: Seq<char>, session_id: Seq<char> },
    Unregister { name: Seq<char> },
}

/// What a change comes to on the replies so far.
pub open spec fn update_flow(
    store: SessionStoreView,
    update: Update,
    replies: Seq<ReplyView>,
) -> FlowView<(), DomainErrorView> {
    match update {
        Update::Register { name, branch, session_id } => register_flow(
            store,
            name,
            branch,
            session_id,
            replies,
            0,
        ),
        Update::Unregister { name } => unregister_flow(store, name, replies, 0),
    }
}

/// The records after a change; `seconds` is the time of a new record.
pub open spec fn updated(
    update: Update,
    sessions: Seq<WorktreeSessionView>,
    seconds: Option<u64>,
) -> Seq<WorktreeSessionView> {
    match update {
        Update::Register { name, branch, session_id } => sessions.push(
            new_record(name, branch, session_id, seconds),
        ),
        Update::Unregister { name } => without(sessions, name),
    }
}

/// A change under way.
pub struct Running {
    pub update: Update,
    pub replies: Seq<ReplyView>,
}

/// Several changes under way, the file that they share, and who holds the lock.
pub struct Scene {
    pub file: RecordsFile,
    pub holder: Option<int>,
    pub running: Seq<Running>,
}

/// Whether nothing has happened yet.
pub open spec fn is_start(s: Scene) -> bool {
    &&& s.holder is None
    &&& forall|i: int| 0 <= i < s.running.len() ==> (#[trigger] s.running[i]).replies == Seq::<
        ReplyView,
    >::empty()
}

/// How the shared world answers the change with index `i`: the file, the holder of the
/// lock and the reply. Whoever asks for a lock that is held waits.
pub open spec fn shared_answer(
    store: SessionStoreView,
    s: Scene,
    i: int,
    seconds: Option<u64>,
    a: ActionView,
) -> Option<(RecordsFile, Option<int>, ReplyView)> {
    match kept(store, s.file, seconds, a) {
        Some((file, reply)) => match a {
            ActionView::LockExclusive { .. } => if s.holder is None {
                Some((file, Some(i), reply))
            } else {
                None
            },
            ActionView::Unlock { .. } => if s.holder == Some(i) {
                Some((file, None, reply))
            } else {
                Some((file, s.holder, reply))
            },
            _ => Some((file, s.holder, reply)),
        },
        None => None,
    }
}

/// The scene after the change with index `i` had its turn; the clock shows `seconds`.
pub open spec fn after_turn(
    store: SessionStoreView,
    s: Scene,
    i: int,
    seconds: Option<u64>,
) -> Scene {
    if 0 <= i < s.running.len() {
        match update_flow(store, s.running[i].update, s.running[i].replies) {
            Err(HaltView::Ask(a)) => match shared_answer(store, s, i, seconds, a) {
                Some((file, holder, reply)) => Scene {
                    file,
                    holder,
                    running: s.running.update(
                        i,
                        Running {
                            update: s.running[i].update,
                            replies: s.running[i].replies.push(reply),
                        },
                    ),
                },
                None => s,
            },
            _ => s,
        }
    } else {
        s
    }
}

/// The scene after the turns, each of which names the change that has it and the time.
pub open spec fn after_turns(
    store: SessionStoreView,
    start: Scene,
    turns: Seq<(int, Option<u64>)>,
) -> Scene
    decreases turns.len(),
{
    if turns.len() == 0 {
        start
    } else {
        let before = after_turns(store, start, turns.drop_last());
        after_turn(store, before, turns.last().0, turns.last().1)
    }
}

// ---------------------------------------------------------------------------
// One operation
// ---------------------------------------------------------------------------

/// An operation on the records.
pub enum StoreOp {
    Load,
    Save { sessions: Seq<WorktreeSessionView> },
    Change(Update),
}

/// What an operation comes to, apart from the value that it gives.
pub open spec fn op_flow(store: SessionStoreView, op: StoreOp, replies: Seq<ReplyView>) -> FlowView<
    (),
    DomainErrorView,
> {
    match op {
        StoreOp::Load => match load_flow(store, replies, 0) {
            Ok((_, n)) => Ok(((), n)),
            Err(h) => Err(h),
        },
        StoreOp::Save { sessions } => save_flow(store, sessions, replies, 0),
        StoreOp::Change(update) => update_flow(store, update, replies),
    }
}

/// Asking for the lock to be given up.
pub open spec fn unlocking(store: SessionStoreView) -> FlowView<(), DomainErrorView> {
    Err(HaltView::Ask(ActionView::Unlock { path: store.lock_path }))
}

/// Whether an operation looks at the records and writes them only after the lock was
/// taken, and has given it up just before its end.
pub open spec fn keeps_to_the_lock(
    store: SessionStoreView,
    op: StoreOp,
    replies: Seq<ReplyView>,
) -> bool {
    match op_flow(store, op, replies) {
        Err(HaltView::Ask(ActionView::ReadSessions { .. })) => acquired(store, replies, 0) is Ok,
        Err(HaltView::Ask(ActionView::WriteSessions { .. })) => acquired(store, replies, 0) is Ok,
        Err(HaltView::Ask(ActionView::PathExists { .. })) => acquired(store, replies, 0) is Ok,
        Ok((_, n)) => n > 0 && op_flow(store, op, replies.take(n - 1)) == unlocking(store),
        Err(HaltView::Fail(_, n)) => acquired(store, replies, 0) is Ok ==> n > 0 && op_flow(
            store,
            op,
            replies.take(n - 1),
        ) == unlocking(store),
        _ => true,
    }
}

/// Reading the records.
proof fn lemma_load_keeps(
    store: SessionStoreView,
    replies: Seq<ReplyView>,
)
    ensures
        keeps_to_the_lock(store, StoreOp::Load, replies),
{
    let op = StoreOp::Load;
    if let Some(n) = end_of(op_flow(store, op, replies)) {
        let earlier = replies.take(n - 1);
        assert(forall|i: int| 0 <= i < n - 1 ==> earlier[i] == replies[i]);
    }
}

/// Replacing the records.
proof fn lemma_save_keeps(
    store: SessionStoreView,
    sessions: Seq<WorktreeSessionView>,
    replies: Seq<ReplyView>,
)
    ensures
        keeps_to_the_lock(store, (StoreOp::Save { sessions }), replies),
{
    let op = (StoreOp::Save { sessions });
    if let Some(n) = end_of(op_flow(store, op, replies)) {
        let earlier = replies.take(n - 1);
        assert(forall|i: int| 0 <= i < n - 1 ==> earlier[i] == replies[i]);
    }
}

/// Adding a record.
proof fn lemma_register_keeps(
    store: SessionStoreView,
    name: Seq<char>,
    branch: Seq<char>,
    session_id: Seq<char>,
    replies: Seq<ReplyView>,
)
    ensures
        keeps_to_the_lock(
            store,
            StoreOp::Change(Update::Register { name, branch, session_id }),
            replies,
        ),
{
    let op = StoreOp::Change(Update::Register { name, branch, session_id });
    if let Some(n) = end_of(op_flow(store, op, replies)) {
        let earlier = replies.take(n - 1);
        assert(forall|i: int| 0 <= i < n - 1 ==> earlier[i] == replies[i]);
    }
}

/// Dropping records.
proof fn lemma_unregister_keeps(
    store: SessionStoreView,
    name: Seq<char>,
    replies: Seq<ReplyView>,
)
    ensures
        keeps_to_the_lock(store, StoreOp::Change(Update::Unregister { name }), replies),
{
    let op = StoreOp::Change(Update::Unregister { name });
    if let Some(n) = end_of(op_flow(store, op, replies)) {
        let earlier = replies.take(n - 1);
        assert(forall|i: int| 0 <= i < n - 1 ==> earlier[i] == replies[i]);
    }
}

/// Whatever the replies are, an operation looks at the records and writes them only
/// after the lock was taken; and one that took the lock and has come to its end, with
/// success or with a failure, gave the lock up just before.
pub proof fn law_lock_is_taken_and_given_up(
    store: SessionStoreView,
    op: StoreOp,
    replies: Seq<ReplyView>,
)
    ensures
        keeps_to_the_lock(store, op, replies),
{
    match op {
        StoreOp::Load => {
            lemma_load_keeps(store, replies);
        },
        StoreOp::Save { sessions } => {
            lemma_save_keeps(store, sessions, replies);
        },
        StoreOp::Change(Update::Register { name, branch, session_id }) => {
            lemma_register_keeps(store, name, branch, session_id, replies);
        },
        StoreOp::Change(Update::Unregister { name }) => {
            lemma_unregister_keeps(store, name, replies);
        },
    }
}

// ---------------------------------------------------------------------------
// The course of a change
// ---------------------------------------------------------------------------

/// Whether the change was told that there is a file.
spec fn sees_file(p: Running) -> bool {
    p.replies.len() > 3 && p.replies[3] == ReplyView::Flag(true)
}

/// The number of replies after which the records are read.
spec fn read_end(p: Running) -> int {
    if sees_file(p) {
        5
    } else {
        4
    }
}

/// The index of the reply to the writing.
spec fn write_at(p: Running) -> int {
    if p.update is Register {
        read_end(p) + 2
    } else {
        read_end(p) + 1
    }
}

/// The records that the change has read.
spec fn seen(p: Running) -> Seq<WorktreeSessionView> {
    if sees_file(p) {
        p.replies[4]->Sessions_0
    } else {
        seq![]
    }
}

/// The records that the change writes.
spec fn to_write(p: Running) -> Seq<WorktreeSessionView> {
    updated(p.update, seen(p), p.replies[read_end(p)]->Clock_0)
}

/// Whether the replies are those of a world in which nothing is refused.
spec fn in_course(p: Running) -> bool {
    let r = p.replies;
    let n = r.len();
    &&& n <= write_at(p) + 2
    &&& n > 0 ==> r[0] == ReplyView::Completed
    &&& n > 1 ==> r[1] == ReplyView::Completed
    &&& n > 2 ==> r[2] == ReplyView::Completed
    &&& n > 3 ==> r[3] is Flag
    &&& n > 4 && sees_file(p) ==> r[4] is Sessions
    &&& n > read_end(p) && p.update is Register ==> r[read_end(p)] is Clock
    &&& n > write_at(p) - 1 ==> r[write_at(p) - 1] == ReplyView::Completed
    &&& n > write_at(p) ==> r[write_at(p)] == ReplyView::Completed
    &&& n > write_at(p) + 1 ==> r[write_at(p) + 1] == ReplyView::Completed
}

/// What a change asks for next.
spec fn next(store: SessionStoreView, p: Running) -> Option<ActionView> {
    let n = p.replies.len();
    if n == 0 {
        Some(ActionView::CreateDirAll { path: store.dir })
    } else if n == 1 {
        Some(ActionView::OpenLock { path: store.lock_path })
    } else if n == 2 {
        Some(ActionView::LockExclusive { path: store.lock_path })
    } else if n == 3 {
        Some(ActionView::PathExists { path: store.path })
    } else if n < read_end(p) {
        Some(ActionView::ReadSessions { path: store.path })
    } else if n < write_at(p) - 1 {
        Some(ActionView::ReadClock)
    } else if n == write_at(p) - 1 {
        Some(ActionView::CreateDirAll { path: store.dir })
    } else if n == write_at(p) {
        Some(ActionView::WriteSessions { path: store.path, sessions: to_write(p) })
    } else if n == write_at(p) + 1 {
        Some(ActionView::Unlock { path: store.lock_path })
    } else {
        None
    }
}

/// A change asks for one thing after the other.
proof fn lemma_next(store: SessionStoreView, p: Running)
    requires
        in_course(p),
    ensures
        match next(store, p) {
            Some(a) => update_flow(store, p.update, p.replies) == Err::<((), nat), _>(
                HaltView::<DomainErrorView>::Ask(a),
            ),
            None => update_flow(store, p.update, p.replies) is Ok,
        },
{
}

/// Whether the change is between taking the lock and giving it up.
spec fn holds_lock(p: Running) -> bool {
    3 <= p.replies.len() <= write_at(p) + 1
}

/// Whether the change has written its records.
spec fn has_written(p: Running) -> bool {
    p.replies.len() > write_at(p)
}

/// What holds in every scene: each change is in its course; who is between taking the
/// lock and giving it up holds it, and nobody else; and what such a change has read is
/// what is in the file, until it writes.
spec fn consistent(s: Scene) -> bool {
    forall|i: int|
        0 <= i < s.running.len() ==> {
            let p = #[trigger] s.running[i];
            &&& in_course(p)
            &&& s.holder == Some(i) <==> holds_lock(p)
            &&& 3 < p.replies.len() <= write_at(p) ==> sees_file(p) == (s.file is Some)
            &&& read_end(p) <= p.replies.len() <= write_at(p) && p.replies.len() > 3 ==> seen(p)
                == contents(s.file)
        }
}

/// A turn keeps a scene consistent, and the file changes only when a change writes
/// what it makes of the records that are in the file.
proof fn lemma_turn(store: SessionStoreView, s: Scene, i: int, seconds: Option<u64>)
    requires
        consistent(s),
    ensures
        consistent(after_turn(store, s, i, seconds)),
        after_turn(store, s, i, seconds).file == s.file || (0 <= i < s.running.len()
            && s.running[i].replies.len() == write_at(s.running[i]) && after_turn(
            store,
            s,
            i,
            seconds,
        ).file == Some(
            updated(
                s.running[i].update,
                contents(s.file),
                s.running[i].replies[read_end(s.running[i])]->Clock_0,
            ),
        )),
{
    if 0 <= i < s.running.len() {
        lemma_next(store, s.running[i]);
        let t = after_turn(store, s, i, seconds);
        let p = s.running[i];
        let q = t.running[i];
        assert(forall|j: int| 0 <= j < s.running.len() && j != i ==> t.running[j] == s.running[j]);
        assert(p.replies.len() > 3 ==> read_end(q) == read_end(p));
    }
}

/// Every scene that is reached is consistent, and has the changes that it started with.
proof fn lemma_reached(store: SessionStoreView, start: Scene, turns: Seq<(int, Option<u64>)>)
    requires
        is_start(start),
    ensures
        consistent(after_turns(store, start, turns)),
        after_turns(store, start, turns).running.len() == start.running.len(),
        forall|i: int|
            0 <= i < start.running.len() ==> (#[trigger] after_turns(
                store,
                start,
                turns,
            ).running[i]).update == start.running[i].update,
    decreases turns.len(),
{
    if turns.len() > 0 {
        let before = after_turns(store, start, turns.drop_last());
        lemma_reached(store, start, turns.drop_last());
        lemma_turn(store, before, turns.last().0, turns.last().1);
    }
}

/// However the changes take turns, whoever looks at the records or writes them holds
/// the lock, and no change fails.
pub proof fn law_records_are_touched_under_the_lock(
    store: SessionStoreView,
    start: Scene,
    turns: Seq<(int, Option<u64>)>,
    i: int,
)
    requires
        is_start(start),
        0 <= i < start.running.len(),
    ensures
        ({
            let s = after_turns(store, start, turns);
            match update_flow(store, s.running[i].update, s.running[i].replies) {
                Ok(_) => s.holder != Some(i),
                Err(HaltView::Ask(ActionView::ReadSessions { .. })) => s.holder == Some(i),
                Err(HaltView::Ask(ActionView::WriteSessions { .. })) => s.holder == Some(i),
                Err(HaltView::Ask(_)) => true,
                Err(_) => false,
            }
        }),
{
    lemma_reached(store, start, turns);
    lemma_next(store, after_turns(store, start, turns).running[i]);
}

/// However the changes take turns, they take effect one after the other: whenever the
/// file changes, it changes to what the change that has the turn makes of the records
/// that were in the file just before.
pub proof fn law_updates_are_serial(
    store: SessionStoreView,
    start: Scene,
    turns: Seq<(int, Option<u64>)>,
)
    requires
        is_start(start),
        turns.len() > 0,
    ensures
        ({
            let before = after_turns(store, start, turns.drop_last());
            let after = after_turns(store, start, turns);
            let i = turns.last().0;
            after.file == before.file || (0 <= i < start.running.len() && exists|time: Option<u64>|
                after.file == Some(
                    #[trigger] updated(start.running[i].update, contents(before.file), time),
                ))
        }),
{
    let before = after_turns(store, start, turns.drop_last());
    let i = turns.last().0;
    lemma_reached(store, start, turns.drop_last());
    lemma_turn(store, before, i, turns.last().1);
    if 0 <= i < start.running.len() {
        let p = before.running[i];
        let time = p.replies[read_end(p)]->Clock_0;
        assert(p.update == start.running[i].update);
        let made = updated(start.running[i].update, contents(before.file), time);
    }
}

// ---------------------------------------------------------------------------
// Registrations
// ---------------------------------------------------------------------------

/// Whether all the changes are registrations.
pub open spec fn all_register(s: Scene) -> bool {
    forall|i: int| 0 <= i < s.running.len() ==> (#[trigger] s.running[i]).update is Register
}

/// Whether a record is that of a registration.
pub open spec fn is_record_of(record: WorktreeSessionView, update: Update) -> bool {
    update matches Update::Register { name, branch, session_id } && record.worktree_name == name
        && record.branch == branch && record.session_id == session_id
}

/// The changes in the order in which they write, as far as they have their turns.
pub open spec fn writers(
    store: SessionStoreView,
    start: Scene,
    turns: Seq<(int, Option<u64>)>,
) -> Seq<int>
    decreases turns.len(),
{
    if turns.len() == 0 {
        seq![]
    } else {
        let before = after_turns(store, start, turns.drop_last());
        let earlier = writers(store, start, turns.drop_last());
        let i = turns.last().0;
        if 0 <= i < before.running.len() && update_flow(
            store,
            before.running[i].update,
            before.running[i].replies,
        ) matches Err(HaltView::Ask(ActionView::WriteSessions { .. })) {
            earlier.push(i)
        } else {
            earlier
        }
    }
}

/// Whether `after` has the records of `before` and behind them one record for each of
/// the registrations in `order`, in that order.
pub open spec fn one_record_each(
    before: Seq<WorktreeSessionView>,
    after: Seq<WorktreeSessionView>,
    running: Seq<Running>,
    order: Seq<int>,
) -> bool {
    &&& before.is_prefix_of(after)
    &&& after.len() == before.len() + order.len()
    &&& forall|k: int|
        0 <= k < order.len() ==> is_record_of(
            after[before.len() + k],
            running[#[trigger] order[k]].update,
        )
}

/// What registrations have added to the file so far.
spec fn added(start: Scene, s: Scene, order: Seq<int>) -> bool {
    &&& one_record_each(contents(start.file), contents(s.file), s.running, order)
    &&& order.no_duplicates()
    &&& forall|i: int| order.contains(i) <==> 0 <= i < s.running.len() && has_written(s.running[i])
}

/// A turn adds the record of the registration that writes, and nothing else.
proof fn lemma_turn_adds(
    store: SessionStoreView,
    start: Scene,
    s: Scene,
    order: Seq<int>,
    i: int,
    seconds: Option<u64>,
)
    requires
        consistent(s),
        all_register(s),
        added(start, s, order),
    ensures
        ({
            let writes = 0 <= i < s.running.len() && update_flow(
                store,
                s.running[i].update,
                s.running[i].replies,
            ) matches Err(HaltView::Ask(ActionView::WriteSessions { .. }));
            added(
                start,
                after_turn(store, s, i, seconds),
                if writes {
                    order.push(i)
                } else {
                    order
                },
            )
        }),
{
    let t = after_turn(store, s, i, seconds);
    if 0 <= i < s.running.len() {
        lemma_next(store, s.running[i]);
        let p = s.running[i];
        let q = t.running[i];
        assert(p.replies.len() > 3 ==> read_end(q) == read_end(p));
        assert(forall|j: int| 0 <= j < s.running.len() ==> t.running[j].update
            == s.running[j].update);
        assert(forall|j: int| 0 <= j < s.running.len() && j != i ==> t.running[j] == s.running[j]);
        if p.replies.len() == write_at(p) {
            let more = order.push(i);
            let record = contents(t.file).last();
            assert(contents(t.file) == contents(s.file).push(record));
            assert(is_record_of(record, p.update));
            assert(!order.contains(i));
            assert forall|j: int|
                more.contains(j) <==> 0 <= j < t.running.len() && has_written(t.running[j]) by {
                assert(more[order.len() as int] == i);
                if order.contains(j) {
                    let k = order.index_of(j);
                    assert(more[k] == j);
                }
                if more.contains(j) && j != i {
                    let k = more.index_of(j);
                    assert(order[k] == j);
                }
            }
            assert(more.no_duplicates());
            let before = contents(start.file);
            assert forall|k: int| 0 <= k < more.len() implies is_record_of(
                contents(t.file)[before.len() + k],
                t.running[#[trigger] more[k]].update,
            ) by {
                if k < order.len() {
                    assert(more[k] == order[k]);
                    assert(order.contains(order[k]));
                }
            }
            assert(before =~= contents(t.file).take(before.len() as int));
        } else {
            assert(t.file == s.file);
            assert forall|k: int| 0 <= k < order.len() implies is_record_of(
                contents(t.file)[contents(start.file).len() + k],
                t.running[#[trigger] order[k]].update,
            ) by {
                assert(order.contains(order[k]));
            }
        }
    }
}

/// What holds of the file in every scene that registrations reach.
proof fn lemma_added(store: SessionStoreView, start: Scene, turns: Seq<(int, Option<u64>)>)
    requires
        is_start(start),
        all_register(start),
    ensures
        added(start, after_turns(store, start, turns), writers(store, start, turns)),
    decreases turns.len(),
{
    if turns.len() > 0 {
        let before = after_turns(store, start, turns.drop_last());
        lemma_reached(store, start, turns.drop_last());
        lemma_added(store, start, turns.drop_last());
        assert(all_register(before)) by {
            assert forall|i: int| 0 <= i < before.running.len() implies (
            #[trigger] before.running[i]).update is Register by {
                assert(start.running[i].update is Register);
            }
        }
        let order = writers(store, start, turns.drop_last());
        lemma_turn_adds(store, start, before, order, turns.last().0, turns.last().1);
    }
}

/// However any number of registrations take turns, none is lost and none counts twice:
/// the records that were there stay where they are, and behind them is exactly one
/// record for each registration that has written, in the order in which they wrote.
/// Every registration that has come to its end is one of these; and when all have, the
/// order is one of all the registrations.
pub proof fn law_no_registration_is_lost(
    store: SessionStoreView,
    start: Scene,
    turns: Seq<(int, Option<u64>)>,
)
    requires
        is_start(start),
        all_register(start),
    ensures
        ({
            let s = after_turns(store, start, turns);
            let order = writers(store, start, turns);
            let ended = |i: int|
                update_flow(store, s.running[i].update, s.running[i].replies) is Ok;
            &&& one_record_each(contents(start.file), contents(s.file), start.running, order)
            &&& order.no_duplicates()
            &&& forall|k: int| 0 <= k < order.len() ==> 0 <= #[trigger] order[k]
                < start.running.len()
            &&& forall|i: int|
                0 <= i < start.running.len() && #[trigger] ended(i) ==> order.contains(i)
            &&& (forall|i: int| 0 <= i < start.running.len() ==> #[trigger] ended(i))
                ==> order.len() == start.running.len()
        }),
{
    let s = after_turns(store, start, turns);
    let order = writers(store, start, turns);
    let ended = |i: int| update_flow(store, s.running[i].update, s.running[i].replies) is Ok;
    lemma_reached(store, start, turns);
    lemma_added(store, start, turns);
    assert forall|k: int| 0 <= k < order.len() implies 0 <= #[trigger] order[k]
        < start.running.len() && s.running[order[k]].update
        == start.running[order[k]].update by {
        assert(order.contains(order[k]));
    }
    assert forall|i: int|
        0 <= i < start.running.len() && #[trigger] ended(i) implies order.contains(i) by {
        lemma_next(store, s.running[i]);
    }
    if forall|i: int| 0 <= i < start.running.len() ==> #[trigger] ended(i) {
        let all = vstd::set_lib::set_int_range(0, start.running.len() as int);
        assert forall|i: int| order.to_set().contains(i) <==> all.contains(i) by {
            if all.contains(i) {
                assert(ended(i));
                let k = order.index_of(i);
                assert(order[k] == i);
            }
            if order.to_set().contains(i) {
                assert(order.contains(i));
            }
        }
        assert(order.to_set() =~= all);
        order.unique_seq_to_set();
        vstd::set_lib::lemma_int_range(0, start.running.len() as int);
    }
}

} // verus!
