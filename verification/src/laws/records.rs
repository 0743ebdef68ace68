//! What holds of the session records.

use vstd::prelude::*;
use crate::domain::error::DomainErrorView;
use crate::domain::session::WorktreeSessionView;
use crate::infra::session_store::{owner_in, ownership, record_of, without};

verus! {

/// Adding a record at the end changes the first record of a worktree only where
/// there was none.
proof fn lemma_record_of_push(
    sessions: Seq<WorktreeSessionView>,
    record: WorktreeSessionView,
    name: Seq<char>,
)
    ensures
        record_of(sessions.push(record), name) == match record_of(sessions, name) {
            Some(first) => Some(first),
            None => if record.worktree_name == name {
                Some(record)
            } else {
                None
            },
        },
    decreases sessions.len(),
{
    if sessions.len() == 0 {
        assert(sessions.push(record).drop_first() =~= seq![]);
        reveal_with_fuel(record_of, 2);
    } else {
        assert(sessions.push(record).drop_first() =~= sessions.drop_first().push(record));
        lemma_record_of_push(sessions.drop_first(), record, name);
    }
}

/// The session that records a worktree which nobody owned owns it from then on:
/// it may act on the worktree, and every other session is told who owns it.
pub proof fn law_registering_gives_ownership(
    sessions: Seq<WorktreeSessionView>,
    record: WorktreeSessionView,
    caller: Seq<char>,
)
    requires
        owner_in(sessions, record.worktree_name) is None,
    ensures
        owner_in(sessions.push(record), record.worktree_name) == Some(record.session_id),
        ownership(sessions.push(record), record.worktree_name, caller) == if caller
            == record.session_id {
            Ok::<(), DomainErrorView>(())
        } else {
            Err(
                DomainErrorView::SessionMismatch {
                    worktree: record.worktree_name,
                    owner: record.session_id,
                    caller,
                },
            )
        },
{
    lemma_record_of_push(sessions, record, record.worktree_name);
}

/// A worktree that is owned keeps its owner, whatever is recorded after.
pub proof fn law_first_owner_stays(
    sessions: Seq<WorktreeSessionView>,
    record: WorktreeSessionView,
    name: Seq<char>,
)
    requires
        owner_in(sessions, name) is Some,
    ensures
        owner_in(sessions.push(record), name) == owner_in(sessions, name),
{
    lemma_record_of_push(sessions, record, name);
}

/// Recording one worktree leaves the owners of the others as they were.
pub proof fn law_registering_keeps_others(
    sessions: Seq<WorktreeSessionView>,
    record: WorktreeSessionView,
    name: Seq<char>,
)
    requires
        name != record.worktree_name,
    ensures
        owner_in(sessions.push(record), name) == owner_in(sessions, name),
{
    lemma_record_of_push(sessions, record, name);
}

/// Dropping the records of one worktree leaves the first record of another.
proof fn lemma_record_of_without(
    sessions: Seq<WorktreeSessionView>,
    name: Seq<char>,
    other: Seq<char>,
)
    ensures
        record_of(without(sessions, name), other) == if other == name {
            None
        } else {
            record_of(sessions, other)
        },
    decreases sessions.len(),
{
    reveal(Seq::filter);
    if sessions.len() > 0 {
        let kept = without(sessions.drop_last(), name);
        let last = sessions.last();
        lemma_record_of_without(sessions.drop_last(), name, other);
        assert(sessions =~= sessions.drop_last().push(last));
        lemma_record_of_push(sessions.drop_last(), last, other);
        lemma_record_of_push(kept, last, other);
    }
}

/// Once the records of a worktree are dropped nobody owns it, and every session
/// may act on it.
pub proof fn law_releasing_frees(
    sessions: Seq<WorktreeSessionView>,
    name: Seq<char>,
    caller: Seq<char>,
)
    ensures
        owner_in(without(sessions, name), name) is None,
        ownership(without(sessions, name), name, caller) == Ok::<(), DomainErrorView>(()),
{
    lemma_record_of_without(sessions, name, name);
}

/// Dropping the records of one worktree leaves the owners of the others as they
/// were.
pub proof fn law_releasing_keeps_others(
    sessions: Seq<WorktreeSessionView>,
    name: Seq<char>,
    other: Seq<char>,
)
    requires
        other != name,
    ensures
        owner_in(without(sessions, name), other) == owner_in(sessions, other),
{
    lemma_record_of_without(sessions, name, other);
}

/// A sequence that a filter leaves as it is.
proof fn lemma_without_absent(sessions: Seq<WorktreeSessionView>, name: Seq<char>)
    requires
        forall|i: int| 0 <= i < sessions.len() ==> #[trigger] sessions[i].worktree_name != name,
    ensures
        without(sessions, name) == sessions,
    decreases sessions.len(),
{
    reveal(Seq::filter);
    if sessions.len() > 0 {
        lemma_without_absent(sessions.drop_last(), name);
        assert(sessions.drop_last().push(sessions.last()) =~= sessions);
    } else {
        assert(without(sessions, name) =~= sessions);
    }
}

/// Dropping the records of a worktree a second time changes nothing, nor does
/// dropping those of a worktree that has none.
pub proof fn law_releasing_is_idempotent(sessions: Seq<WorktreeSessionView>, name: Seq<char>)
    ensures
        without(without(sessions, name), name) == without(sessions, name),
        (forall|i: int| 0 <= i < sessions.len() ==> #[trigger] sessions[i].worktree_name != name)
            ==> without(sessions, name) == sessions,
{
    let kept = |s: WorktreeSessionView| s.worktree_name != name;
    broadcast use vstd::seq_lib::group_filter_ensures;
    assert forall|i: int| 0 <= i < without(sessions, name).len() implies #[trigger] without(
        sessions,
        name,
    )[i].worktree_name != name by {
        assert(kept(without(sessions, name)[i]));
    }
    lemma_without_absent(without(sessions, name), name);
    if forall|i: int| 0 <= i < sessions.len() ==> #[trigger] sessions[i].worktree_name != name {
        lemma_without_absent(sessions, name);
    }
}

/// Recording a worktree that had no record and dropping its records again gives
/// back the records as they were.
pub proof fn law_releasing_undoes_registering(
    sessions: Seq<WorktreeSessionView>,
    record: WorktreeSessionView,
)
    requires
        forall|i: int|
            0 <= i < sessions.len() ==> #[trigger] sessions[i].worktree_name
                != record.worktree_name,
    ensures
        without(sessions.push(record), record.worktree_name) == sessions,
{
    reveal(Seq::filter);
    lemma_without_absent(sessions, record.worktree_name);
    assert(sessions.push(record).drop_last() =~= sessions);
}

} // verus!
