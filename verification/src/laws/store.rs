//! What holds of the session records in a world that keeps what is written.

use vstd::prelude::*;
use crate::domain::error::DomainErrorView;
use crate::domain::session::WorktreeSessionView;
use crate::infra::session_store::{
    load_flow, owner_in, ownership, register_flow, save_flow, stamp, unregister_flow,
    verify_owner_flow, without, SessionStoreView,
};
use crate::laws::records::{
    law_first_owner_stays, law_registering_gives_ownership, law_registering_keeps_others,
    law_releasing_frees, law_releasing_is_idempotent, law_releasing_keeps_others,
};
use crate::protocol::{ActionView, FlowView, HaltView, ReplyView};

verus! {

/// The file with the records, where there is one.
pub type RecordsFile = Option<Seq<WorktreeSessionView>>;

/// The records in the file. Where there is no file there are none.
pub open spec fn contents(file: RecordsFile) -> Seq<WorktreeSessionView> {
    match file {
        Some(sessions) => sessions,
        None => seq![],
    }
}

/// How a world that keeps what is written answers the questions about a store: the
/// file afterwards, and the reply. Other questions it does not answer.
pub open spec fn kept(
    store: SessionStoreView,
    file: RecordsFile,
    seconds: Option<u64>,
    a: ActionView,
) -> Option<(RecordsFile, ReplyView)> {
    match a {
        ActionView::CreateDirAll { path } if path == store.dir => Some(
            (file, ReplyView::Completed),
        ),
        ActionView::OpenLock { path } if path == store.lock_path => Some(
            (file, ReplyView::Completed),
        ),
        ActionView::LockExclusive { path } if path == store.lock_path => Some(
            (file, ReplyView::Completed),
        ),
        ActionView::Unlock { path } if path == store.lock_path => Some(
            (file, ReplyView::Completed),
        ),
        ActionView::PathExists { path } if path == store.path => Some(
            (file, ReplyView::Flag(file is Some)),
        ),
        ActionView::ReadSessions { path } if path == store.path => Some(
            (file, ReplyView::Sessions(contents(file))),
        ),
        ActionView::WriteSessions { path, sessions } if path == store.path => Some(
            (Some(sessions), ReplyView::Completed),
        ),
        ActionView::ReadClock => Some((file, ReplyView::Clock(seconds))),
        _ => None,
    }
}

/// Driving an operation in that world, for `steps` replies at most: what it comes to,
/// and the file afterwards.
pub open spec fn driven<T, E>(
    op: spec_fn(Seq<ReplyView>) -> FlowView<T, E>,
    store: SessionStoreView,
    file: RecordsFile,
    seconds: Option<u64>,
    replies: Seq<ReplyView>,
    steps: nat,
) -> (FlowView<T, E>, RecordsFile)
    decreases steps,
{
    match op(replies) {
        Err(HaltView::Ask(a)) if steps > 0 => match kept(store, file, seconds, a) {
            Some((after, reply)) => driven(
                op,
                store,
                after,
                seconds,
                replies.push(reply),
                (steps - 1) as nat,
            ),
            None => (op(replies), file),
        },
        outcome => (outcome, file),
    }
}

/// The value of an operation that succeeded.
pub open spec fn value<T, E>(f: FlowView<T, E>) -> Option<T> {
    match f {
        Ok((v, _)) => Some(v),
        Err(_) => None,
    }
}

/// The number of replies that no operation on the records goes beyond.
pub open spec fn enough() -> nat {
    9
}

/// Driving the reading of records.
pub open spec fn loaded(store: SessionStoreView, file: RecordsFile) -> (
    FlowView<Seq<WorktreeSessionView>, DomainErrorView>,
    RecordsFile,
) {
    driven(|r: Seq<ReplyView>| load_flow(store, r, 0), store, file, None, seq![], enough())
}

/// Driving the replacing of records.
pub open spec fn saved(
    store: SessionStoreView,
    file: RecordsFile,
    sessions: Seq<WorktreeSessionView>,
) -> (FlowView<(), DomainErrorView>, RecordsFile) {
    driven(
        |r: Seq<ReplyView>| save_flow(store, sessions, r, 0),
        store,
        file,
        None,
        seq![],
        enough(),
    )
}

/// Driving the adding of a record.
pub open spec fn registered(
    store: SessionStoreView,
    file: RecordsFile,
    name: Seq<char>,
    branch: Seq<char>,
    session_id: Seq<char>,
    seconds: Option<u64>,
) -> (FlowView<(), DomainErrorView>, RecordsFile) {
    driven(
        |r: Seq<ReplyView>| register_flow(store, name, branch, session_id, r, 0),
        store,
        file,
        seconds,
        seq![],
        enough(),
    )
}

/// Driving the dropping of records.
pub open spec fn unregistered(store: SessionStoreView, file: RecordsFile, name: Seq<char>) -> (
    FlowView<(), DomainErrorView>,
    RecordsFile,
) {
    driven(
        |r: Seq<ReplyView>| unregister_flow(store, name, r, 0),
        store,
        file,
        None,
        seq![],
        enough(),
    )
}

/// Driving the check of an owner.
pub open spec fn verified(
    store: SessionStoreView,
    file: RecordsFile,
    name: Seq<char>,
    caller: Seq<char>,
) -> (FlowView<(), DomainErrorView>, RecordsFile) {
    driven(
        |r: Seq<ReplyView>| verify_owner_flow(store, name, caller, r, 0),
        store,
        file,
        None,
        seq![],
        enough(),
    )
}

/// Loading gives what is in the file, and leaves the file as it is.
pub proof fn law_loading_gives_what_is_kept(store: SessionStoreView, file: RecordsFile)
    ensures
        value(loaded(store, file).0) == Some(contents(file)),
        loaded(store, file).1 == file,
{
    reveal_with_fuel(driven, 10);
}

/// What is saved is what is loaded, whatever was there before.
pub proof fn law_loading_gives_back_what_was_saved(
    store: SessionStoreView,
    file: RecordsFile,
    sessions: Seq<WorktreeSessionView>,
)
    ensures
        saved(store, file, sessions).0 is Ok,
        value(loaded(store, saved(store, file, sessions).1).0) == Some(sessions),
{
    lemma_saved(store, file, sessions);
    law_loading_gives_what_is_kept(store, Some(sessions));
}

/// Saving replaces the file.
proof fn lemma_saved(
    store: SessionStoreView,
    file: RecordsFile,
    sessions: Seq<WorktreeSessionView>,
)
    ensures
        saved(store, file, sessions).0 is Ok,
        saved(store, file, sessions).1 == Some(sessions),
{
    reveal_with_fuel(driven, 10);
}

/// The record that registering adds.
pub open spec fn new_record(
    name: Seq<char>,
    branch: Seq<char>,
    session_id: Seq<char>,
    seconds: Option<u64>,
) -> WorktreeSessionView {
    WorktreeSessionView {
        worktree_name: name,
        branch,
        session_id,
        created_at: stamp(seconds),
    }
}

/// Registering succeeds and adds one record behind those that were there: none of
/// them is lost or changed.
pub proof fn law_registering_adds_a_record(
    store: SessionStoreView,
    file: RecordsFile,
    name: Seq<char>,
    branch: Seq<char>,
    session_id: Seq<char>,
    seconds: Option<u64>,
)
    ensures
        registered(store, file, name, branch, session_id, seconds).0 is Ok,
        registered(store, file, name, branch, session_id, seconds).1 == Some(
            contents(file).push(new_record(name, branch, session_id, seconds)),
        ),
{
    reveal_with_fuel(driven, 10);
}

/// Unregistering succeeds, whether the worktree has records or not, and drops its
/// records and no others.
pub proof fn law_unregistering_drops_the_records(
    store: SessionStoreView,
    file: RecordsFile,
    name: Seq<char>,
)
    ensures
        unregistered(store, file, name).0 is Ok,
        unregistered(store, file, name).1 == Some(without(contents(file), name)),
{
    reveal_with_fuel(driven, 10);
}

/// Checking an owner goes by what is in the file, and leaves the file as it is.
pub proof fn law_verifying_goes_by_what_is_kept(
    store: SessionStoreView,
    file: RecordsFile,
    name: Seq<char>,
    caller: Seq<char>,
)
    ensures
        match verified(store, file, name, caller).0 {
            Ok(_) => ownership(contents(file), name, caller) is Ok,
            Err(HaltView::Fail(e, _)) => ownership(contents(file), name, caller) == Err::<(), _>(e),
            Err(_) => false,
        },
        verified(store, file, name, caller).1 == file,
{
    reveal_with_fuel(driven, 10);
}

/// A worktree that nobody owned and that a session registers belongs to that session:
/// the check lets it through and tells every other session whose the worktree is.
pub proof fn law_registered_worktrees_are_owned(
    store: SessionStoreView,
    file: RecordsFile,
    name: Seq<char>,
    branch: Seq<char>,
    session_id: Seq<char>,
    seconds: Option<u64>,
    caller: Seq<char>,
)
    requires
        owner_in(contents(file), name) is None,
    ensures
        ({
            let after = registered(store, file, name, branch, session_id, seconds).1;
            match verified(store, after, name, caller).0 {
                Ok(_) => caller == session_id,
                Err(HaltView::Fail(e, _)) => caller != session_id && e
                    == (DomainErrorView::SessionMismatch {
                    worktree: name,
                    owner: session_id,
                    caller,
                }),
                Err(_) => false,
            }
        }),
{
    let after = registered(store, file, name, branch, session_id, seconds).1;
    let record = new_record(name, branch, session_id, seconds);
    law_registering_adds_a_record(store, file, name, branch, session_id, seconds);
    law_verifying_goes_by_what_is_kept(store, after, name, caller);
    law_registering_gives_ownership(contents(file), record, caller);
}

/// A worktree that is owned keeps its owner when another session registers it too,
/// and the owners of other worktrees stay as they are.
pub proof fn law_registering_takes_nothing_away(
    store: SessionStoreView,
    file: RecordsFile,
    name: Seq<char>,
    branch: Seq<char>,
    session_id: Seq<char>,
    seconds: Option<u64>,
    other: Seq<char>,
)
    requires
        other != name || owner_in(contents(file), name) is Some,
    ensures
        owner_in(
            contents(registered(store, file, name, branch, session_id, seconds).1),
            other,
        ) == owner_in(contents(file), other),
{
    let record = new_record(name, branch, session_id, seconds);
    law_registering_adds_a_record(store, file, name, branch, session_id, seconds);
    if other == name {
        law_first_owner_stays(contents(file), record, other);
    } else {
        law_registering_keeps_others(contents(file), record, other);
    }
}

/// Once the records of a worktree are dropped the check lets every session through,
/// and the owners of other worktrees stay as they are.
pub proof fn law_unregistered_worktrees_are_free(
    store: SessionStoreView,
    file: RecordsFile,
    name: Seq<char>,
    caller: Seq<char>,
    other: Seq<char>,
)
    ensures
        verified(store, unregistered(store, file, name).1, name, caller).0 is Ok,
        other != name ==> owner_in(contents(unregistered(store, file, name).1), other) == owner_in(
            contents(file),
            other,
        ),
{
    law_unregistering_drops_the_records(store, file, name);
    law_verifying_goes_by_what_is_kept(store, unregistered(store, file, name).1, name, caller);
    law_releasing_frees(contents(file), name, caller);
    if other != name {
        law_releasing_keeps_others(contents(file), name, other);
    }
}

/// Unregistering a second time succeeds as well and changes nothing more.
pub proof fn law_unregistering_is_idempotent(
    store: SessionStoreView,
    file: RecordsFile,
    name: Seq<char>,
)
    ensures
        unregistered(store, unregistered(store, file, name).1, name).0 is Ok,
        unregistered(store, unregistered(store, file, name).1, name).1 == unregistered(
            store,
            file,
            name,
        ).1,
{
    law_unregistering_drops_the_records(store, file, name);
    law_unregistering_drops_the_records(store, unregistered(store, file, name).1, name);
    law_releasing_is_idempotent(contents(file), name);
}

} // verus!
