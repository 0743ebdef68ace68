//! The session records of a repository, kept in a file that is read and written
//! under an exclusive lock on a second file.

use vstd::prelude::*;
use vstd::string::*;
use crate::domain::error::{DomainError, DomainErrorView};
use crate::domain::session::{SessionId, WorktreeSession, WorktreeSessionView};
use crate::infra::git::path::{join_path, joined_path};
use crate::protocol::{
    ask_flag, clock, effect, flag, flow_view, perform, read_clock, replied, reply_to, Action,
    ActionView, Flow, FlowView, Halt, HaltView, Reply, ReplyView,
};
use crate::text::{append, decimal, decimal_of, same};

verus! {

// ---------------------------------------------------------------------------
// Records
// ---------------------------------------------------------------------------

/// The first record of a worktree.
pub open spec fn record_of(sessions: Seq<WorktreeSessionView>, name: Seq<char>) -> Option<
    WorktreeSessionView,
>
    decreases sessions.len(),
{
    if sessions.len() == 0 {
        None
    } else if sessions[0].worktree_name == name {
        Some(sessions[0])
    } else {
        record_of(sessions.drop_first(), name)
    }
}

/// The session that owns a worktree.
pub open spec fn owner_in(sessions: Seq<WorktreeSessionView>, name: Seq<char>) -> Option<
    Seq<char>,
> {
    match record_of(sessions, name) {
        Some(record) => Some(record.session_id),
        None => None,
    }
}

/// Whether `caller` may act on a worktree: the owner may, and where there is no
/// owner everybody may.
pub open spec fn ownership(
    sessions: Seq<WorktreeSessionView>,
    name: Seq<char>,
    caller: Seq<char>,
) -> Result<(), DomainErrorView> {
    match owner_in(sessions, name) {
        Some(owner) => if owner == caller {
            Ok(())
        } else {
            Err(DomainErrorView::SessionMismatch { worktree: name, owner, caller })
        },
        None => Ok(()),
    }
}

/// The records without those of a worktree.
pub open spec fn without(sessions: Seq<WorktreeSessionView>, name: Seq<char>) -> Seq<
    WorktreeSessionView,
> {
    sessions.filter(|s: WorktreeSessionView| s.worktree_name != name)
}

/// The time of a record: the seconds since the start of the epoch, and zero where
/// the clock is before it.
pub open spec fn stamp(seconds: Option<u64>) -> Seq<char> {
    match seconds {
        Some(s) => decimal_of(s as nat),
        None => decimal_of(0),
    }
}

/// The time of a record.
pub fn chrono_now(seconds: Option<u64>) -> (r: String)
    ensures
        r@ == stamp(seconds),
{
    match seconds {
        Some(s) => decimal(s),
        None => decimal(0),
    }
}

/// The session that owns a worktree.
pub fn find_owner(sessions: &[WorktreeSession], name: &str) -> (r: Option<SessionId>)
    ensures
        r.deep_view() == owner_in(sessions.deep_view(), name@),
{
    let ghost ss = sessions.deep_view();
    let mut i: usize = 0;
    assert(ss.skip(0) =~= ss);
    while i < sessions.len()
        invariant
            ss == sessions.deep_view(),
            i <= sessions@.len(),
            record_of(ss, name@) == record_of(ss.skip(i as int), name@),
        decreases sessions@.len() - i,
    {
        assert(ss.skip(i as int)[0] == sessions@[i as int].deep_view());
        assert(ss.skip(i as int).drop_first() =~= ss.skip(i + 1));
        if same(sessions[i].worktree_name.as_str(), name) {
            return Some(sessions[i].session_id.clone());
        }
        i += 1;
    }
    None
}

/// Whether `caller` may act on a worktree.
pub fn check_owner(sessions: &[WorktreeSession], name: &str, caller: &SessionId) -> (r: Result<
    (),
    DomainError,
>)
    ensures
        match r {
            Ok(()) => ownership(sessions.deep_view(), name@, caller@) is Ok,
            Err(e) => ownership(sessions.deep_view(), name@, caller@) == Err::<(), _>(
                e.deep_view(),
            ),
        },
{
    match find_owner(sessions, name) {
        Some(owner) => if owner.same(caller) {
            Ok(())
        } else {
            Err(
                DomainError::SessionMismatch {
                    worktree: name.to_string(),
                    owner: owner.to_string(),
                    caller: caller.to_string(),
                },
            )
        },
        None => Ok(()),
    }
}

/// The records without those of a worktree.
pub fn remove_records(sessions: &[WorktreeSession], name: &str) -> (r: Vec<WorktreeSession>)
    ensures
        r.deep_view() == without(sessions.deep_view(), name@),
{
    let ghost ss = sessions.deep_view();
    let ghost other = |s: WorktreeSessionView| s.worktree_name != name@;
    let mut r: Vec<WorktreeSession> = Vec::new();
    let mut i: usize = 0;
    assert(ss.take(0).filter(other) =~= seq![]) by {
        reveal(Seq::filter);
    }
    while i < sessions.len()
        invariant
            ss == sessions.deep_view(),
            other == (|s: WorktreeSessionView| s.worktree_name != name@),
            i <= sessions@.len(),
            r.deep_view() == ss.take(i as int).filter(other),
        decreases sessions@.len() - i,
    {
        proof {
            reveal(Seq::filter);
            assert(ss.take(i + 1).drop_last() =~= ss.take(i as int));
            assert(ss.take(i + 1).last() == sessions@[i as int].deep_view());
        }
        if !same(sessions[i].worktree_name.as_str(), name) {
            append(&mut r, sessions[i].clone());
        }
        i += 1;
    }
    assert(ss.take(i as int) =~= ss);
    r
}

// ---------------------------------------------------------------------------
// The store
// ---------------------------------------------------------------------------

/// Where the records of a repository are.
pub struct SessionStore {
    dir: String,
    path: String,
    lock_path: String,
}

/// A [`SessionStore`] over character sequences.
pub struct SessionStoreView {
    /// The directory of the two files.
    pub dir: Seq<char>,
    /// The file that holds the records.
    pub path: Seq<char>,
    /// The file that is locked.
    pub lock_path: Seq<char>,
}

impl DeepView for SessionStore {
    type V = SessionStoreView;

    closed spec fn deep_view(&self) -> SessionStoreView {
        SessionStoreView { dir: self.dir@, path: self.path@, lock_path: self.lock_path@ }
    }
}

/// The store of a repository.
pub open spec fn store_of(repo_root: Seq<char>) -> SessionStoreView {
    let dir = joined_path(repo_root, ".worktrees"@);
    SessionStoreView {
        dir,
        path: joined_path(dir, ".sessions.json"@),
        lock_path: joined_path(dir, ".sessions.json.lock"@),
    }
}

/// Making a directory that must be made.
pub open spec fn dir_made(path: Seq<char>, replies: Seq<ReplyView>, at: nat) -> FlowView<
    (),
    DomainErrorView,
> {
    match effect(ActionView::CreateDirAll { path }, replies, at) {
        Ok((None, n)) => Ok(((), n)),
        Ok((Some(e), n)) => Err(HaltView::Fail(DomainErrorView::Io(e), n)),
        Err(h) => Err(h),
    }
}

/// Taking the lock.
pub open spec fn acquired(store: SessionStoreView, replies: Seq<ReplyView>, at: nat) -> FlowView<
    (),
    DomainErrorView,
> {
    let path = store.lock_path;
    match dir_made(store.dir, replies, at) {
        Ok((_, n)) => match effect(ActionView::OpenLock { path }, replies, n) {
            Ok((None, n)) => match effect(ActionView::LockExclusive { path }, replies, n) {
                Ok((None, n)) => Ok(((), n)),
                Ok((Some(e), n)) => Err(
                    HaltView::Fail(DomainErrorView::Lock("acquire exclusive lock: "@ + e), n),
                ),
                Err(h) => Err(h),
            },
            Ok((Some(e), n)) => Err(
                HaltView::Fail(DomainErrorView::Lock("open lock file: "@ + e), n),
            ),
            Err(h) => Err(h),
        },
        Err(h) => Err(h),
    }
}

/// Giving the lock up once the work under it is over, whether it succeeded or
/// failed. That the lock could not be given up is of no consequence.
pub open spec fn released<T>(
    store: SessionStoreView,
    work: FlowView<T, DomainErrorView>,
    replies: Seq<ReplyView>,
) -> FlowView<T, DomainErrorView> {
    match work {
        Ok((v, n)) => match effect(ActionView::Unlock { path: store.lock_path }, replies, n) {
            Ok((_, n)) => Ok((v, n)),
            Err(h) => Err(h),
        },
        Err(HaltView::Fail(e, n)) => match effect(
            ActionView::Unlock { path: store.lock_path },
            replies,
            n,
        ) {
            Ok((_, n)) => Err(HaltView::Fail(e, n)),
            Err(h) => Err(h),
        },
        Err(h) => Err(h),
    }
}

/// Reading the records, under the lock. Where there is no file there are none.
pub open spec fn records_read(
    store: SessionStoreView,
    replies: Seq<ReplyView>,
    at: nat,
) -> FlowView<Seq<WorktreeSessionView>, DomainErrorView> {
    match flag(ActionView::PathExists { path: store.path }, replies, at) {
        Ok((false, n)) => Ok((seq![], n)),
        Ok((true, n)) => match replied(
            ActionView::ReadSessions { path: store.path },
            replies,
            n,
        ) {
            Ok(ReplyView::Sessions(sessions)) => Ok((sessions, n + 1)),
            Ok(ReplyView::Failed(e)) => Err(HaltView::Fail(DomainErrorView::Io(e), n + 1)),
            Ok(ReplyView::Malformed(e)) => Err(HaltView::Fail(DomainErrorView::Git(e), n + 1)),
            Ok(_) => Err(HaltView::Mismatch),
            Err(h) => Err(h),
        },
        Err(h) => Err(h),
    }
}

/// Replacing the records, under the lock.
pub open spec fn records_written(
    store: SessionStoreView,
    sessions: Seq<WorktreeSessionView>,
    replies: Seq<ReplyView>,
    at: nat,
) -> FlowView<(), DomainErrorView> {
    match dir_made(store.dir, replies, at) {
        Ok((_, n)) => match replied(
            ActionView::WriteSessions { path: store.path, sessions },
            replies,
            n,
        ) {
            Ok(ReplyView::Completed) => Ok(((), n + 1)),
            Ok(ReplyView::Failed(e)) => Err(HaltView::Fail(DomainErrorView::Io(e), n + 1)),
            Ok(ReplyView::Malformed(e)) => Err(HaltView::Fail(DomainErrorView::Git(e), n + 1)),
            Ok(_) => Err(HaltView::Mismatch),
            Err(h) => Err(h),
        },
        Err(h) => Err(h),
    }
}

/// Reading the records.
pub open spec fn load_flow(store: SessionStoreView, replies: Seq<ReplyView>, at: nat) -> FlowView<
    Seq<WorktreeSessionView>,
    DomainErrorView,
> {
    match acquired(store, replies, at) {
        Ok((_, n)) => released(store, records_read(store, replies, n), replies),
        Err(h) => Err(h),
    }
}

/// Replacing the records.
pub open spec fn save_flow(
    store: SessionStoreView,
    sessions: Seq<WorktreeSessionView>,
    replies: Seq<ReplyView>,
    at: nat,
) -> FlowView<(), DomainErrorView> {
    match acquired(store, replies, at) {
        Ok((_, n)) => released(store, records_written(store, sessions, replies, n), replies),
        Err(h) => Err(h),
    }
}

/// Adding a record, under the lock.
pub open spec fn record_added(
    store: SessionStoreView,
    worktree_name: Seq<char>,
    branch: Seq<char>,
    session_id: Seq<char>,
    replies: Seq<ReplyView>,
    at: nat,
) -> FlowView<(), DomainErrorView> {
    match records_read(store, replies, at) {
        Ok((sessions, n)) => match clock(replies, n) {
            Ok((seconds, n)) => {
                let record = WorktreeSessionView {
                    worktree_name,
                    branch,
                    session_id,
                    created_at: stamp(seconds),
                };
                records_written(store, sessions.push(record), replies, n)
            },
            Err(h) => Err(h),
        },
        Err(h) => Err(h),
    }
}

/// Adding a record.
pub open spec fn register_flow(
    store: SessionStoreView,
    worktree_name: Seq<char>,
    branch: Seq<char>,
    session_id: Seq<char>,
    replies: Seq<ReplyView>,
    at: nat,
) -> FlowView<(), DomainErrorView> {
    match acquired(store, replies, at) {
        Ok((_, n)) => released(
            store,
            record_added(store, worktree_name, branch, session_id, replies, n),
            replies,
        ),
        Err(h) => Err(h),
    }
}

/// Dropping the records of a worktree, under the lock.
pub open spec fn records_dropped(
    store: SessionStoreView,
    worktree_name: Seq<char>,
    replies: Seq<ReplyView>,
    at: nat,
) -> FlowView<(), DomainErrorView> {
    match records_read(store, replies, at) {
        Ok((sessions, n)) => records_written(store, without(sessions, worktree_name), replies, n),
        Err(h) => Err(h),
    }
}

/// Dropping the records of a worktree.
pub open spec fn unregister_flow(
    store: SessionStoreView,
    worktree_name: Seq<char>,
    replies: Seq<ReplyView>,
    at: nat,
) -> FlowView<(), DomainErrorView> {
    match acquired(store, replies, at) {
        Ok((_, n)) => released(store, records_dropped(store, worktree_name, replies, n), replies),
        Err(h) => Err(h),
    }
}

/// Looking up the owner of a worktree.
pub open spec fn owner_of_flow(
    store: SessionStoreView,
    worktree_name: Seq<char>,
    replies: Seq<ReplyView>,
    at: nat,
) -> FlowView<Option<Seq<char>>, DomainErrorView> {
    match load_flow(store, replies, at) {
        Ok((sessions, n)) => Ok((owner_in(sessions, worktree_name), n)),
        Err(h) => Err(h),
    }
}

/// Checking that `caller` may act on a worktree.
pub open spec fn verify_owner_flow(
    store: SessionStoreView,
    worktree_name: Seq<char>,
    caller: Seq<char>,
    replies: Seq<ReplyView>,
    at: nat,
) -> FlowView<(), DomainErrorView> {
    match load_flow(store, replies, at) {
        Ok((sessions, n)) => match ownership(sessions, worktree_name, caller) {
            Ok(_) => Ok(((), n)),
            Err(e) => Err(HaltView::Fail(e, n)),
        },
        Err(h) => Err(h),
    }
}

impl SessionStore {
    /// The store of a repository.
    pub fn new(repo_root: &str) -> (r: Self)
        ensures
            r.deep_view() == store_of(repo_root@),
    {
        let dir = join_path(repo_root, ".worktrees");
        let path = join_path(dir.as_str(), ".sessions.json");
        let lock_path = join_path(dir.as_str(), ".sessions.json.lock");
        SessionStore { dir, path, lock_path }
    }

    /// Makes the directory of the two files.
    fn make_dir(&self, replies: &[Reply], at: usize) -> (r: Flow<(), DomainError>)
        ensures
            flow_view(r) == dir_made(self.deep_view().dir, replies.deep_view(), at as nat),
    {
        let (refusal, at) = perform(
            Action::CreateDirAll { path: self.dir.clone() },
            replies,
            at,
        )?;
        match refusal {
            Some(e) => Err(Halt::Fail(DomainError::Io(e), at)),
            None => Ok(((), at)),
        }
    }

    /// Takes the lock.
    fn acquire(&self, replies: &[Reply], at: usize) -> (r: Flow<(), DomainError>)
        ensures
            flow_view(r) == acquired(self.deep_view(), replies.deep_view(), at as nat),
    {
        let (_, at) = self.make_dir(replies, at)?;
        let path = self.lock_path.clone();
        let (refusal, at) = perform(Action::OpenLock { path }, replies, at)?;
        if let Some(e) = refusal {
            let message = "open lock file: ".to_string().concat(e.as_str());
            return Err(Halt::Fail(DomainError::Lock(message), at));
        }
        let path = self.lock_path.clone();
        let (refusal, at) = perform(Action::LockExclusive { path }, replies, at)?;
        if let Some(e) = refusal {
            let message = "acquire exclusive lock: ".to_string().concat(e.as_str());
            return Err(Halt::Fail(DomainError::Lock(message), at));
        }
        Ok(((), at))
    }

    /// Gives the lock up once the work under it is over.
    fn release<T: DeepView>(&self, work: Flow<T, DomainError>, replies: &[Reply]) -> (r: Flow<
        T,
        DomainError,
    >)
        ensures
            flow_view(r) == released(self.deep_view(), flow_view(work), replies.deep_view()),
    {
        let path = self.lock_path.clone();
        match work {
            Ok((v, at)) => {
                let (_, at) = perform(Action::Unlock { path }, replies, at)?;
                Ok((v, at))
            },
            Err(Halt::Fail(e, at)) => {
                let (_, at) = perform(Action::Unlock { path }, replies, at)?;
                Err(Halt::Fail(e, at))
            },
            Err(h) => Err(h),
        }
    }

    /// Reads the records, under the lock.
    fn load_unlocked(&self, replies: &[Reply], at: usize) -> (r: Flow<
        Vec<WorktreeSession>,
        DomainError,
    >)
        ensures
            flow_view(r) == records_read(self.deep_view(), replies.deep_view(), at as nat),
    {
        let path = self.path.clone();
        let (exists, at) = ask_flag(Action::PathExists { path }, replies, at)?;
        if !exists {
            let none: Vec<WorktreeSession> = Vec::new();
            assert(none.deep_view() =~= seq![]);
            return Ok((none, at));
        }
        let path = self.path.clone();
        match reply_to(Action::ReadSessions { path }, replies, at)? {
            Reply::Sessions(sessions) => Ok((copy_records(sessions.as_slice()), at + 1)),
            Reply::Failed(e) => Err(Halt::Fail(DomainError::Io(e.clone()), at + 1)),
            Reply::Malformed(e) => Err(Halt::Fail(DomainError::Git(e.clone()), at + 1)),
            _ => Err(Halt::Mismatch),
        }
    }

    /// Replaces the records, under the lock.
    fn save_unlocked(&self, sessions: Vec<WorktreeSession>, replies: &[Reply], at: usize) -> (r:
        Flow<(), DomainError>)
        ensures
            flow_view(r) == records_written(
                self.deep_view(),
                sessions.deep_view(),
                replies.deep_view(),
                at as nat,
            ),
    {
        let (_, at) = self.make_dir(replies, at)?;
        let path = self.path.clone();
        match reply_to(Action::WriteSessions { path, sessions }, replies, at)? {
            Reply::Completed => Ok(((), at + 1)),
            Reply::Failed(e) => Err(Halt::Fail(DomainError::Io(e.clone()), at + 1)),
            Reply::Malformed(e) => Err(Halt::Fail(DomainError::Git(e.clone()), at + 1)),
            _ => Err(Halt::Mismatch),
        }
    }

    /// Reads the records.
    pub fn load(&self, replies: &[Reply], at: usize) -> (r: Flow<Vec<WorktreeSession>, DomainError>)
        ensures
            flow_view(r) == load_flow(self.deep_view(), replies.deep_view(), at as nat),
    {
        let (_, at) = self.acquire(replies, at)?;
        let work = self.load_unlocked(replies, at);
        self.release(work, replies)
    }

    /// Replaces the records.
    pub fn save(&self, sessions: &[WorktreeSession], replies: &[Reply], at: usize) -> (r: Flow<
        (),
        DomainError,
    >)
        ensures
            flow_view(r) == save_flow(
                self.deep_view(),
                sessions.deep_view(),
                replies.deep_view(),
                at as nat,
            ),
    {
        let (_, at) = self.acquire(replies, at)?;
        let work = self.save_unlocked(copy_records(sessions), replies, at);
        self.release(work, replies)
    }

    /// Adds a record, under the lock.
    fn register_unlocked(
        &self,
        worktree_name: &str,
        branch: &str,
        session_id: &SessionId,
        replies: &[Reply],
        at: usize,
    ) -> (r: Flow<(), DomainError>)
        ensures
            flow_view(r) == record_added(
                self.deep_view(),
                worktree_name@,
                branch@,
                session_id@,
                replies.deep_view(),
                at as nat,
            ),
    {
        let (mut sessions, at) = self.load_unlocked(replies, at)?;
        let (seconds, at) = read_clock(replies, at)?;
        let record = WorktreeSession {
            worktree_name: worktree_name.to_string(),
            branch: branch.to_string(),
            session_id: session_id.clone(),
            created_at: chrono_now(seconds),
        };
        append(&mut sessions, record);
        self.save_unlocked(sessions, replies, at)
    }

    /// Records that a session owns a worktree.
    pub fn register(
        &self,
        worktree_name: &str,
        branch: &str,
        session_id: &SessionId,
        replies: &[Reply],
        at: usize,
    ) -> (r: Flow<(), DomainError>)
        ensures
            flow_view(r) == register_flow(
                self.deep_view(),
                worktree_name@,
                branch@,
                session_id@,
                replies.deep_view(),
                at as nat,
            ),
    {
        let (_, at) = self.acquire(replies, at)?;
        let work = self.register_unlocked(worktree_name, branch, session_id, replies, at);
        self.release(work, replies)
    }

    /// Drops the records of a worktree, under the lock.
    fn unregister_unlocked(&self, worktree_name: &str, replies: &[Reply], at: usize) -> (r: Flow<
        (),
        DomainError,
    >)
        ensures
            flow_view(r) == records_dropped(
                self.deep_view(),
                worktree_name@,
                replies.deep_view(),
                at as nat,
            ),
    {
        let (sessions, at) = self.load_unlocked(replies, at)?;
        self.save_unlocked(remove_records(sessions.as_slice(), worktree_name), replies, at)
    }

    /// Drops the records of a worktree.
    pub fn unregister(&self, worktree_name: &str, replies: &[Reply], at: usize) -> (r: Flow<
        (),
        DomainError,
    >)
        ensures
            flow_view(r) == unregister_flow(
                self.deep_view(),
                worktree_name@,
                replies.deep_view(),
                at as nat,
            ),
    {
        let (_, at) = self.acquire(replies, at)?;
        let work = self.unregister_unlocked(worktree_name, replies, at);
        self.release(work, replies)
    }

    /// The session that owns a worktree, where one does.
    pub fn owner_of(&self, worktree_name: &str, replies: &[Reply], at: usize) -> (r: Flow<
        Option<SessionId>,
        DomainError,
    >)
        ensures
            flow_view(r) == owner_of_flow(
                self.deep_view(),
                worktree_name@,
                replies.deep_view(),
                at as nat,
            ),
    {
        let (sessions, at) = self.load(replies, at)?;
        Ok((find_owner(sessions.as_slice(), worktree_name), at))
    }

    /// Checks that `caller` may act on a worktree.
    pub fn verify_owner(
        &self,
        worktree_name: &str,
        caller: &SessionId,
        replies: &[Reply],
        at: usize,
    ) -> (r: Flow<(), DomainError>)
        ensures
            flow_view(r) == verify_owner_flow(
                self.deep_view(),
                worktree_name@,
                caller@,
                replies.deep_view(),
                at as nat,
            ),
    {
        let (sessions, at) = self.load(replies, at)?;
        match check_owner(sessions.as_slice(), worktree_name, caller) {
            Ok(()) => Ok(((), at)),
            Err(e) => Err(Halt::Fail(e, at)),
        }
    }
}

/// A copy of the records.
fn copy_records(sessions: &[WorktreeSession]) -> (r: Vec<WorktreeSession>)
    ensures
        r.deep_view() == sessions.deep_view(),
{
    let ghost ss = sessions.deep_view();
    let mut r: Vec<WorktreeSession> = Vec::new();
    let mut i: usize = 0;
    while i < sessions.len()
        invariant
            ss == sessions.deep_view(),
            i <= sessions@.len(),
            r.deep_view() == ss.take(i as int),
        decreases sessions@.len() - i,
    {
        append(&mut r, sessions[i].clone());
        i += 1;
        assert(r.deep_view() =~= ss.take(i as int));
    }
    assert(ss.take(i as int) =~= ss);
    r
}

} // verus!
