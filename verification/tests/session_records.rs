//! The session records, in a world that keeps them in memory.

use git_workflow_mcp::domain::error::DomainError;
use git_workflow_mcp::domain::session::{SessionId, WorktreeSession};
use git_workflow_mcp::infra::session_store::{
    check_owner, chrono_now, find_owner, remove_records, SessionStore,
};
use git_workflow_mcp::protocol::{Action, Flow, Halt, Reply};

const DIR: &str = "/repo/.worktrees";
const FILE: &str = "/repo/.worktrees/.sessions.json";
const LOCK: &str = "/repo/.worktrees/.sessions.json.lock";

/// A file with records, a clock and a lock.
struct World {
    file: Option<Vec<WorktreeSession>>,
    holder: Option<usize>,
    seconds: u64,
    asked: Vec<&'static str>,
}

impl World {
    fn new() -> World {
        World {
            file: None,
            holder: None,
            seconds: 1700000000,
            asked: Vec::new(),
        }
    }

    /// Answers what `who` asks for, or nothing where it has to wait.
    fn answer(&mut self, who: usize, action: &Action) -> Option<Reply> {
        let (word, reply) = match action {
            Action::CreateDirAll { path } => {
                assert_eq!(path, DIR);
                ("mkdir", Reply::Completed)
            }
            Action::OpenLock { path } => {
                assert_eq!(path, LOCK);
                ("open", Reply::Completed)
            }
            Action::LockExclusive { path } => {
                assert_eq!(path, LOCK);
                if self.holder.is_some() {
                    return None;
                }
                self.holder = Some(who);
                ("lock", Reply::Completed)
            }
            Action::Unlock { path } => {
                assert_eq!(path, LOCK);
                assert_eq!(self.holder, Some(who), "the lock is given up by who holds it");
                self.holder = None;
                ("unlock", Reply::Completed)
            }
            Action::PathExists { path } => {
                assert_eq!(path, FILE);
                assert_eq!(self.holder, Some(who), "looked at under the lock");
                ("exists", Reply::Flag(self.file.is_some()))
            }
            Action::ReadSessions { path } => {
                assert_eq!(path, FILE);
                assert_eq!(self.holder, Some(who), "read under the lock");
                ("read", Reply::Sessions(self.file.clone().unwrap()))
            }
            Action::WriteSessions { path, sessions } => {
                assert_eq!(path, FILE);
                assert_eq!(self.holder, Some(who), "written under the lock");
                self.file = Some(sessions.clone());
                ("write", Reply::Completed)
            }
            Action::ReadClock => ("clock", Reply::Clock(Some(self.seconds))),
            other => panic!("unexpected: {other:?}"),
        };
        self.asked.push(word);
        Some(reply)
    }

    /// Drives one operation to its end.
    fn run<T>(&mut self, op: impl Fn(&[Reply]) -> Flow<T, DomainError>) -> Result<T, DomainError> {
        let mut replies: Vec<Reply> = Vec::new();
        self.asked.clear();
        loop {
            match op(&replies) {
                Ok((value, _)) => return Ok(value),
                Err(Halt::Fail(e, _)) => return Err(e),
                Err(Halt::Mismatch) => panic!("a reply of the wrong kind"),
                Err(Halt::Ask(action)) => replies.push(self.answer(0, &action).expect("no waiting")),
            }
        }
    }
}

fn record(name: &str, branch: &str, id: &str) -> WorktreeSession {
    WorktreeSession {
        worktree_name: name.to_string(),
        branch: branch.to_string(),
        session_id: SessionId::recorded(id.to_string()),
        created_at: "0".to_string(),
    }
}

#[test]
fn lock_serializes_sequential_register() {
    let mut world = World::new();
    let store = SessionStore::new("/repo");
    let sid = SessionId::new();
    world
        .run(|r| store.register("wt-a", "branch-a", &sid, r, 0))
        .expect("register a");
    assert_eq!(
        world.asked,
        vec!["mkdir", "open", "lock", "exists", "clock", "mkdir", "write", "unlock"]
    );
    world
        .run(|r| store.register("wt-b", "branch-b", &sid, r, 0))
        .expect("register b");
    assert_eq!(
        world.asked,
        vec!["mkdir", "open", "lock", "exists", "read", "clock", "mkdir", "write", "unlock"]
    );
    let all = world.run(|r| store.load(r, 0)).expect("load");
    assert_eq!(all.len(), 2);
    assert_eq!(all[0].worktree_name, "wt-a");
    assert_eq!(all[1].branch, "branch-b");
    assert_eq!(all[1].session_id.as_str(), sid.as_str());
    assert_eq!(all[0].created_at, "1700000000");
}

#[test]
fn concurrent_save_no_lost_update() {
    let mut world = World::new();
    let store = SessionStore::new("/repo");
    let ids: Vec<SessionId> = (0..10).map(|_| SessionId::new()).collect();
    let mut replies: Vec<Vec<Reply>> = (0..10).map(|_| Vec::new()).collect();
    let mut ended = vec![false; 10];
    let mut turn: usize = 0;
    while ended.iter().any(|e| !e) {
        // A turn order in which the registrations get into each other's way.
        turn += 7;
        let i = turn % 10;
        let name = format!("wt-{i}");
        let branch = format!("branch-{i}");
        match store.register(&name, &branch, &ids[i], &replies[i], 0) {
            Ok(_) => ended[i] = true,
            Err(Halt::Ask(action)) => {
                if let Some(reply) = world.answer(i, &action) {
                    replies[i].push(reply);
                }
            }
            Err(Halt::Fail(e, _)) => panic!("register: {e:?}"),
            Err(Halt::Mismatch) => panic!("a reply of the wrong kind"),
        }
        assert!(turn < 100000, "everyone comes to an end");
    }
    let all = world.run(|r| store.load(r, 0)).expect("final load");
    assert_eq!(all.len(), 10, "all 10 registrations must persist");
    for i in 0..10 {
        let name = format!("wt-{i}");
        let owner = find_owner(&all, &name).expect("recorded");
        assert!(owner.same(&ids[i]));
    }
}

#[test]
fn verify_owner_matches_caller() {
    let mut world = World::new();
    let store = SessionStore::new("/repo");
    let sid = SessionId::new();
    world
        .run(|r| store.register("wt-x", "b-x", &sid, r, 0))
        .expect("register");
    world
        .run(|r| store.verify_owner("wt-x", &sid, r, 0))
        .expect("verify ok");
}

#[test]
fn verify_owner_rejects_other_caller() {
    let mut world = World::new();
    let store = SessionStore::new("/repo");
    let sid_a = SessionId::new();
    let sid_b = SessionId::new();
    world
        .run(|r| store.register("wt-x", "b-x", &sid_a, r, 0))
        .expect("register");
    let err = world
        .run(|r| store.verify_owner("wt-x", &sid_b, r, 0))
        .expect_err("mismatch");
    assert!(matches!(err, DomainError::SessionMismatch { .. }));
    assert_eq!(
        err,
        DomainError::SessionMismatch {
            worktree: "wt-x".to_string(),
            owner: sid_a.to_string(),
            caller: sid_b.to_string(),
        }
    );
    assert_eq!(world.asked, vec!["mkdir", "open", "lock", "exists", "read", "unlock"]);
}

#[test]
fn what_is_saved_is_loaded() {
    let mut world = World::new();
    let store = SessionStore::new("/repo");
    assert!(world.run(|r| store.load(r, 0)).expect("nothing yet").is_empty());
    let sessions = vec![record("a", "x", "one"), record("b", "y", "two")];
    world.run(|r| store.save(&sessions, r, 0)).expect("save");
    let back = world.run(|r| store.load(r, 0)).expect("load");
    assert_eq!(format!("{back:?}"), format!("{sessions:?}"));
}

#[test]
fn the_first_owner_stays_until_the_worktree_is_released() {
    let mut world = World::new();
    let store = SessionStore::new("/repo/");
    let one = SessionId::recorded("one".to_string());
    let two = SessionId::recorded("two".to_string());
    assert!(world.run(|r| store.owner_of("a", r, 0)).expect("free").is_none());
    world.run(|r| store.verify_owner("a", &two, r, 0)).expect("free for all");
    world.run(|r| store.register("a", "x", &one, r, 0)).expect("one");
    world.run(|r| store.register("a", "x", &two, r, 0)).expect("two");
    world.run(|r| store.register("b", "y", &two, r, 0)).expect("other");
    let owner = world.run(|r| store.owner_of("a", r, 0)).expect("owned");
    assert_eq!(owner.expect("owned").as_str(), "one");
    world.run(|r| store.verify_owner("a", &two, r, 0)).expect_err("not the owner");
    world.run(|r| store.unregister("a", r, 0)).expect("released");
    assert!(world.run(|r| store.owner_of("a", r, 0)).expect("free").is_none());
    world.run(|r| store.verify_owner("a", &two, r, 0)).expect("free again");
    assert_eq!(world.run(|r| store.load(r, 0)).expect("load").len(), 1);
    world.run(|r| store.unregister("a", r, 0)).expect("released again");
    world.run(|r| store.unregister("never", r, 0)).expect("never there");
    let left = world.run(|r| store.load(r, 0)).expect("load");
    assert_eq!(left.len(), 1);
    assert_eq!(left[0].worktree_name, "b");
}

#[test]
fn releasing_undoes_registering() {
    let sessions = vec![record("a", "x", "1"), record("b", "y", "2")];
    let mut more = sessions.clone();
    more.push(record("c", "z", "3"));
    assert_eq!(format!("{:?}", remove_records(&more, "c")), format!("{sessions:?}"));
    assert_eq!(format!("{:?}", remove_records(&sessions, "c")), format!("{sessions:?}"));
    assert_eq!(remove_records(&sessions, "a").len(), 1);
    let me = SessionId::recorded("2".to_string());
    assert!(check_owner(&sessions, "b", &me).is_ok());
    assert!(check_owner(&sessions, "c", &me).is_ok());
    assert!(check_owner(&sessions, "a", &me).is_err());
}

/// What loading comes to on these replies.
fn load_on(replies: Vec<Reply>) -> Result<Vec<WorktreeSession>, DomainError> {
    match SessionStore::new("/repo").load(&replies, 0) {
        Ok((value, end)) => {
            assert_eq!(end, replies.len());
            Ok(value)
        }
        Err(Halt::Fail(e, end)) => {
            assert_eq!(end, replies.len());
            Err(e)
        }
        Err(other) => panic!("not settled: {other:?}"),
    }
}

fn refused(text: &str) -> Reply {
    Reply::Failed(text.to_string())
}

#[test]
fn each_refusal_has_its_error() {
    let done = || Reply::Completed;
    let yes = || Reply::Flag(true);
    assert_eq!(
        load_on(vec![refused("full")]).unwrap_err(),
        DomainError::Io("full".to_string())
    );
    assert_eq!(
        load_on(vec![done(), refused("denied")]).unwrap_err(),
        DomainError::Lock("open lock file: denied".to_string())
    );
    assert_eq!(
        load_on(vec![done(), done(), refused("busy")]).unwrap_err().to_string(),
        "file lock error: acquire exclusive lock: busy"
    );
    assert_eq!(
        load_on(vec![done(), done(), done(), yes(), refused("gone"), done()]).unwrap_err(),
        DomainError::Io("gone".to_string())
    );
    let garbled = Reply::Malformed("expected value at line 1 column 1".to_string());
    // That the lock cannot be given up changes nothing.
    assert_eq!(
        load_on(vec![done(), done(), done(), yes(), garbled, refused("unlock")]).unwrap_err(),
        DomainError::Git("expected value at line 1 column 1".to_string())
    );
    assert!(load_on(vec![done(), done(), done(), Reply::Flag(false), refused("unlock")]).is_ok());
    let store = SessionStore::new("/repo");
    let none: Vec<WorktreeSession> = Vec::new();
    let replies = vec![done(), done(), done(), done(), refused("full"), done()];
    assert!(matches!(
        store.save(&none, &replies, 0),
        Err(Halt::Fail(DomainError::Io(_), 6))
    ));
    let replies = vec![done(), done(), done(), refused("full"), done()];
    assert!(matches!(
        store.save(&none, &replies, 0),
        Err(Halt::Fail(DomainError::Io(_), 5))
    ));
}

#[test]
fn a_failure_under_the_lock_gives_the_lock_up() {
    let store = SessionStore::new("/repo");
    let replies = vec![
        Reply::Completed,
        Reply::Completed,
        Reply::Completed,
        Reply::Flag(true),
        refused("gone"),
    ];
    match store.unregister("a", &replies, 0) {
        Err(Halt::Ask(Action::Unlock { path })) => assert_eq!(path, LOCK),
        other => panic!("the lock is kept: {other:?}"),
    }
}

#[test]
fn identifiers_are_random_and_of_version_four() {
    let a = SessionId::new();
    let b = SessionId::new();
    assert_ne!(a.as_str(), b.as_str());
    assert!(!a.same(&b));
    assert!(a.same(&a.clone()));
    for id in &[a, b] {
        let text: Vec<char> = id.as_str().chars().collect();
        assert_eq!(text.len(), 36);
        for (i, c) in text.iter().enumerate() {
            match i {
                8 | 13 | 18 | 23 => assert_eq!(*c, '-'),
                14 => assert_eq!(*c, '4'),
                19 => assert!("89ab".contains(*c)),
                _ => assert!(c.is_ascii_digit() || ('a'..='f').contains(c)),
            }
        }
    }
}

#[test]
fn the_time_of_a_record() {
    assert_eq!(chrono_now(Some(1700000000)), "1700000000");
    assert_eq!(chrono_now(Some(u64::MAX)), "18446744073709551615");
    assert_eq!(chrono_now(None), "0");
}
