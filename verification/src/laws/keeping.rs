//! What the session records are kept in, word for word: what is asked for, in which
//! order, and what is said where it is refused.

use vstd::prelude::*;
use crate::domain::error::DomainErrorView;
use crate::domain::session::WorktreeSessionView;
use crate::infra::git::path::joined_path;
use crate::infra::session_store::{
    load_flow, owner_in, owner_of_flow, ownership, record_of, register_flow, save_flow, stamp,
    store_of, unregister_flow, verify_owner_flow, without, SessionStoreView,
};
use crate::laws::transcripts::after_flag;
use crate::protocol::{ActionView, FlowView, HaltView, ReplyView};
use crate::text::{is_number, lemma_decimal_value, value_of};

verus! {

// ---------------------------------------------------------------------------
// Files
// ---------------------------------------------------------------------------

/// The records of a repository are in its directory `.worktrees`, beside the file that is
/// locked.
pub proof fn law_records_are_kept_with_the_worktrees(root: Seq<char>)
    ensures
        ({
            let dir = joined_path(root, ".worktrees"@);
            &&& store_of(root).dir == dir
            &&& store_of(root).path == joined_path(dir, ".sessions.json"@)
            &&& store_of(root).lock_path == joined_path(dir, ".sessions.json.lock"@)
        }),
{
}

/// Having something done: what follows, or the error that a refusal is.
pub open spec fn after_effect<T>(
    a: ActionView,
    replies: Seq<ReplyView>,
    at: nat,
    error: spec_fn(Seq<char>) -> DomainErrorView,
    next: FlowView<T, DomainErrorView>,
) -> FlowView<T, DomainErrorView> {
    if at >= replies.len() {
        Err(HaltView::Ask(a))
    } else {
        match replies[at as int] {
            ReplyView::Completed => next,
            ReplyView::Failed(e) => Err(HaltView::Fail(error(e), at + 1)),
            _ => Err(HaltView::Mismatch),
        }
    }
}

/// Giving up the lock once the work is done, whether it succeeded or not; a refusal to
/// unlock changes nothing.
pub open spec fn then_unlocked<T>(
    store: SessionStoreView,
    work: FlowView<T, DomainErrorView>,
    replies: Seq<ReplyView>,
) -> FlowView<T, DomainErrorView> {
    let n = match work {
        Ok((_, n)) => n,
        Err(HaltView::Fail(_, n)) => n,
        Err(_) => replies.len(),
    };
    if work matches Err(HaltView::Ask(_)) {
        work
    } else if work matches Err(HaltView::Mismatch) {
        work
    } else if n >= replies.len() {
        Err(HaltView::Ask(ActionView::Unlock { path: store.lock_path }))
    } else if !(replies[n as int] is Completed || replies[n as int] is Failed) {
        Err(HaltView::Mismatch)
    } else {
        match work {
            Ok((v, n)) => Ok((v, n + 1)),
            Err(HaltView::Fail(e, n)) => Err(HaltView::Fail(e, n + 1)),
            Err(h) => Err(h),
        }
    }
}

/// Doing work under the lock: the directory is made, the lock file opened, and the lock
/// taken, before the work; and the lock is given up behind it.
pub open spec fn locked<T>(
    store: SessionStoreView,
    work: FlowView<T, DomainErrorView>,
    replies: Seq<ReplyView>,
    at: nat,
) -> FlowView<T, DomainErrorView> {
    after_effect(
        ActionView::CreateDirAll { path: store.dir },
        replies,
        at,
        |e: Seq<char>| DomainErrorView::Io(e),
        after_effect(
            ActionView::OpenLock { path: store.lock_path },
            replies,
            at + 1,
            |e: Seq<char>| DomainErrorView::Lock("open lock file: "@ + e),
            after_effect(
                ActionView::LockExclusive { path: store.lock_path },
                replies,
                at + 2,
                |e: Seq<char>| DomainErrorView::Lock("acquire exclusive lock: "@ + e),
                then_unlocked(store, work, replies),
            ),
        ),
    )
}

/// Reading the records: none where there is no file.
pub open spec fn read_at(store: SessionStoreView, replies: Seq<ReplyView>, at: nat) -> FlowView<
    Seq<WorktreeSessionView>,
    DomainErrorView,
> {
    after_flag(
        ActionView::PathExists { path: store.path },
        replies,
        at,
        if at + 1 >= replies.len() {
            Err(HaltView::Ask(ActionView::ReadSessions { path: store.path }))
        } else {
            match replies[at as int + 1] {
                ReplyView::Sessions(sessions) => Ok((sessions, at + 2)),
                ReplyView::Failed(e) => Err(HaltView::Fail(DomainErrorView::Io(e), at + 2)),
                ReplyView::Malformed(e) => Err(HaltView::Fail(DomainErrorView::Git(e), at + 2)),
                _ => Err(HaltView::Mismatch),
            }
        },
        Ok((seq![], at + 1)),
    )
}

/// Writing the records.
pub open spec fn write_at(
    store: SessionStoreView,
    sessions: Seq<WorktreeSessionView>,
    replies: Seq<ReplyView>,
    at: nat,
) -> FlowView<(), DomainErrorView> {
    after_effect(
        ActionView::CreateDirAll { path: store.dir },
        replies,
        at,
        |e: Seq<char>| DomainErrorView::Io(e),
        if at + 1 >= replies.len() {
            Err(HaltView::Ask(ActionView::WriteSessions { path: store.path, sessions }))
        } else {
            match replies[at as int + 1] {
                ReplyView::Completed => Ok(((), at + 2)),
                ReplyView::Failed(e) => Err(HaltView::Fail(DomainErrorView::Io(e), at + 2)),
                ReplyView::Malformed(e) => Err(HaltView::Fail(DomainErrorView::Git(e), at + 2)),
                _ => Err(HaltView::Mismatch),
            }
        },
    )
}

/// The records are read and replaced under the lock.
pub proof fn law_records_are_read_and_replaced(
    store: SessionStoreView,
    sessions: Seq<WorktreeSessionView>,
    replies: Seq<ReplyView>,
    at: nat,
)
    ensures
        load_flow(store, replies, at) == locked(
            store,
            read_at(store, replies, at + 3),
            replies,
            at,
        ),
        save_flow(store, sessions, replies, at) == locked(
            store,
            write_at(store, sessions, replies, at + 3),
            replies,
            at,
        ),
{
}

/// A record is added behind those that were read, with the time that is read then; the
/// records of a worktree are dropped from those that were read. Both write back under the
/// one lock.
pub proof fn law_records_are_changed_under_one_lock(
    store: SessionStoreView,
    name: Seq<char>,
    branch: Seq<char>,
    session_id: Seq<char>,
    replies: Seq<ReplyView>,
    at: nat,
)
    ensures
        register_flow(store, name, branch, session_id, replies, at) == locked(
            store,
            match read_at(store, replies, at + 3) {
                Ok((sessions, n)) => if n >= replies.len() {
                    Err(HaltView::Ask(ActionView::ReadClock))
                } else {
                    match replies[n as int] {
                        ReplyView::Clock(seconds) => write_at(
                            store,
                            sessions.push(
                                WorktreeSessionView {
                                    worktree_name: name,
                                    branch,
                                    session_id,
                                    created_at: stamp(seconds),
                                },
                            ),
                            replies,
                            n + 1,
                        ),
                        _ => Err(HaltView::Mismatch),
                    }
                },
                Err(h) => Err(h),
            },
            replies,
            at,
        ),
        unregister_flow(store, name, replies, at) == locked(
            store,
            match read_at(store, replies, at + 3) {
                Ok((sessions, n)) => write_at(
                    store,
                    sessions.filter(|s: WorktreeSessionView| s.worktree_name != name),
                    replies,
                    n,
                ),
                Err(h) => Err(h),
            },
            replies,
            at,
        ),
{
}

/// The owner is looked up in the records that were read, and another caller is told of
/// it.
pub proof fn law_owners_are_looked_up(
    store: SessionStoreView,
    name: Seq<char>,
    caller: Seq<char>,
    replies: Seq<ReplyView>,
    at: nat,
)
    ensures
        match load_flow(store, replies, at) {
            Ok((sessions, n)) => {
                &&& owner_of_flow(store, name, replies, at) == Ok::<_, HaltView<DomainErrorView>>(
                    (owner_in(sessions, name), n),
                )
                &&& verify_owner_flow(store, name, caller, replies, at) == match owner_in(
                    sessions,
                    name,
                ) {
                    Some(owner) => if owner == caller {
                        Ok(((), n))
                    } else {
                        Err(
                            HaltView::Fail(
                                DomainErrorView::SessionMismatch { worktree: name, owner, caller },
                                n,
                            ),
                        )
                    },
                    None => Ok(((), n)),
                }
            },
            Err(h) => {
                &&& owner_of_flow(store, name, replies, at) == Err::<(Option<Seq<char>>, nat), _>(h)
                &&& verify_owner_flow(store, name, caller, replies, at) == Err::<((), nat), _>(h)
            },
        },
{
}

// ---------------------------------------------------------------------------
// Records
// ---------------------------------------------------------------------------

/// A record is stamped with the seconds of the clock, and with zero where the clock has
/// none.
pub proof fn law_stamps_are_seconds(seconds: Option<u64>)
    ensures
        is_number(stamp(seconds)),
        value_of(stamp(seconds)) == if seconds is Some {
            seconds->0 as nat
        } else {
            0
        },
{
    lemma_decimal_value(if seconds is Some {
        seconds->0 as nat
    } else {
        0
    });
}

/// The first record of a worktree tells its owner, and a worktree without a record has
/// none.
pub proof fn law_the_first_record_tells_the_owner(
    sessions: Seq<WorktreeSessionView>,
    name: Seq<char>,
    caller: Seq<char>,
    k: int,
)
    requires
        0 <= k <= sessions.len(),
        forall|i: int| 0 <= i < k ==> (#[trigger] sessions[i]).worktree_name != name,
        k < sessions.len() ==> sessions[k].worktree_name == name,
    ensures
        record_of(sessions, name) == if k < sessions.len() {
            Some(sessions[k])
        } else {
            None
        },
        owner_in(sessions, name) == if k < sessions.len() {
            Some(sessions[k].session_id)
        } else {
            None
        },
        ownership(sessions, name, caller) is Ok <==> k == sessions.len() || sessions[k].session_id
            == caller,
    decreases sessions.len(),
{
    if k > 0 {
        assert(sessions[0].worktree_name != name);
        let rest = sessions.drop_first();
        assert forall|i: int| 0 <= i < k - 1 implies (#[trigger] rest[i]).worktree_name != name by {
            assert(rest[i] == sessions[i + 1]);
        }
        law_the_first_record_tells_the_owner(rest, name, caller, k - 1);
    }
}

/// Dropping takes the records of one worktree, all of them, and leaves the others in
/// their order.
pub proof fn law_dropping_takes_the_records_of_one_worktree(
    sessions: Seq<WorktreeSessionView>,
    record: WorktreeSessionView,
    name: Seq<char>,
)
    ensures
        without(seq![], name) == Seq::<WorktreeSessionView>::empty(),
        without(sessions.push(record), name) == if record.worktree_name == name {
            without(sessions, name)
        } else {
            without(sessions, name).push(record)
        },
{
    reveal(Seq::filter);
    assert(sessions.push(record).drop_last() =~= sessions);
}

} // verus!
