//! What holds of every call, tried on many worlds.

use git_workflow_mcp::domain::session::{SessionId, WorktreeSession};
use git_workflow_mcp::infra::git::inspect::parse_counts;
use git_workflow_mcp::infra::git::remote::{validate_refspec, validate_remote_name};
use git_workflow_mcp::interface::mcp::tools::DiffRequest;
use git_workflow_mcp::interface::mcp::{GitWorkflowServer, ServerMode, ToolCall};
use git_workflow_mcp::protocol::{Action, CommandOutput, Halt, Reply};

/// A simple source of numbers that look random.
struct Dice(u64);

impl Dice {
    fn roll(&mut self, sides: u64) -> usize {
        self.0 = self.0.wrapping_mul(6364136223846793005).wrapping_add(1442695040888963407);
        ((self.0 >> 33) % sides) as usize
    }
}

fn s(text: &str) -> String {
    text.to_string()
}

fn calls() -> Vec<ToolCall> {
    let dir = || s("/w");
    let diff = |staged, range: Option<&str>, name_only| {
        ToolCall::Diff(DiffRequest {
            working_dir: s("/w"),
            staged,
            commit_range: range.map(s),
            paths: Some(vec![s("p")]),
            name_only,
            max_lines: Some(1),
        })
    };
    let mut all = vec![
        ToolCall::SessionStart { repo_root: s("/repo") },
        ToolCall::WorktreeAdd { name: s("a"), branch: s("task/a"), base_branch: None },
        ToolCall::WorktreeAdd { name: s("a"), branch: s("task/a"), base_branch: Some(s("main")) },
        ToolCall::WorktreeRemove { name: s("a") },
        ToolCall::SessionRelease { name: s("a") },
        ToolCall::WorktreeList,
        ToolCall::BranchDelete { branch: s("task/a"), working_dir: None },
        ToolCall::BranchDelete { branch: s("task/a"), working_dir: Some(s("/w")) },
        ToolCall::Commit { working_dir: dir(), message: s("m"), paths: None },
        ToolCall::Commit { working_dir: dir(), message: s("m"), paths: Some(vec![s("x"), s("-y")]) },
        ToolCall::Commit { working_dir: dir(), message: s("m"), paths: Some(vec![s("x")]) },
        ToolCall::Merge { branch: s("task/a"), into_branch: s("main"), working_dir: None },
        ToolCall::Merge {
            branch: s("task/a"),
            into_branch: s("main"),
            working_dir: Some(s("/w")),
        },
        ToolCall::Status { working_dir: dir() },
        diff(None, None, None),
        diff(Some(true), None, Some(true)),
        diff(Some(true), Some("a..b"), None),
        ToolCall::Log { working_dir: dir(), range: None, max_count: None },
        ToolCall::Fetch { working_dir: dir(), remote: None, refspec: None, prune: true },
        ToolCall::Fetch { working_dir: dir(), remote: Some(s("a;b")), refspec: None, prune: true },
        ToolCall::RemoteList { working_dir: dir() },
        ToolCall::BranchStatus { working_dir: dir(), branch: s("a"), base: s("b") },
        ToolCall::UnpushedCommits { working_dir: dir(), branch: s("a"), remote: s("origin") },
        ToolCall::IsPushed { working_dir: dir(), commit: s("1"), remote: s("origin") },
        ToolCall::TagPushed { working_dir: dir(), tag: s("v1"), remote: s("origin") },
        ToolCall::ResetTarget { working_dir: dir(), steps_back: 1, from: s("HEAD") },
        ToolCall::WorktreeState { working_dir: dir(), branch: None },
    ];
    for mode in &[None, Some("soft"), Some("mixed"), Some("hard"), Some("keep")] {
        all.push(ToolCall::SafeReset { working_dir: dir(), mode: mode.map(s), target: None });
    }
    all
}

const LISTING: &str = "worktree /repo\nHEAD 1\nbranch refs/heads/main\n\nworktree /w\nHEAD 1\ndetached\n\nworktree /x\nHEAD 1\nbranch refs/heads/task/a\n";

/// Some reply of the kind that the action asks for.
fn reply_to(action: &Action, dice: &mut Dice) -> Reply {
    let refused = || Reply::Failed(s("refused"));
    let done = |dice: &mut Dice| {
        if dice.roll(12) == 0 {
            Reply::Failed(s("refused"))
        } else {
            Reply::Completed
        }
    };
    match action {
        Action::Git { .. } => match dice.roll(10) {
            0 => refused(),
            n => {
                let texts = ["", "main\n", LISTING, "1\t2\n", "1\t0\tx\n2\t1\ty\n", "a b\nc\n"];
                let codes = [Some(0), Some(0), Some(0), Some(1), Some(128), None];
                Reply::Output(CommandOutput {
                    code: codes[n % 6],
                    stdout: s(texts[dice.roll(6)]),
                    stderr: s("not found"),
                })
            }
        },
        Action::PathExists { .. } | Action::IsDirectory { .. } => Reply::Flag(dice.roll(2) == 0),
        Action::Canonicalize { path } => match dice.roll(3) {
            0 => refused(),
            1 => Reply::Path(s("/same")),
            _ => Reply::Path(path.clone()),
        },
        Action::MakeAbsolute { path } => match dice.roll(4) {
            0 => refused(),
            1 => Reply::Path(path.clone()),
            _ => Reply::Path(format!("/cwd/{path}")),
        },
        Action::ReadVariable { .. } => match dice.roll(3) {
            0 => Reply::Variable(None),
            1 => Reply::Variable(Some(s("1"))),
            _ => Reply::Variable(Some(s("no"))),
        },
        Action::ReadClock => Reply::Clock(if dice.roll(2) == 0 { None } else { Some(7) }),
        Action::ReadSessions { .. } => match dice.roll(4) {
            0 => refused(),
            1 => Reply::Malformed(s("garbled")),
            2 => Reply::Sessions(Vec::new()),
            _ => Reply::Sessions(vec![WorktreeSession {
                worktree_name: s("a"),
                branch: s("task/a"),
                session_id: SessionId::recorded(s("somebody")),
                created_at: s("0"),
            }]),
        },
        _ => done(dice),
    }
}

/// The git commands that only look.
fn only_looks(args: &[String]) -> bool {
    match args[0].as_str() {
        "branch" => args[1] == "--show-current",
        "worktree" => args[1] == "list",
        "remote" => args[1] == "-v" && args.len() == 2,
        "status" | "diff" | "log" | "rev-parse" | "show-ref" | "rev-list" | "merge-base"
        | "for-each-ref" | "ls-remote" => true,
        _ => false,
    }
}

/// What is asked for must fit the mode and the library.
fn fits(mode: ServerMode, call: &ToolCall, action: &Action, replies: &[Reply]) {
    match action {
        Action::Git { args, .. } => {
            let word = args[0].as_str();
            assert!(word != "push" && word != "pull" && word != "clone");
            if word == "remote" {
                assert_eq!(args, &vec![s("remote"), s("-v")]);
            }
            if word == "reset" {
                assert_eq!(args.len(), 3);
                assert!(args[1] == "--soft" || args[1] == "--mixed");
            }
            match mode {
                ServerMode::ReadOnly => assert!(only_looks(args), "{args:?}"),
                ServerMode::ReadRemote => assert!(only_looks(args) || word == "fetch", "{args:?}"),
                ServerMode::Full => {}
            }
            let destroys = match call {
                ToolCall::WorktreeRemove { .. } => word == "worktree" && args[1] == "remove",
                ToolCall::BranchDelete { .. } => word == "branch",
                ToolCall::Merge { .. } => word == "merge",
                _ => false,
            };
            if destroys {
                let owned = replies.iter().any(|r| match r {
                    Reply::Sessions(all) => !all.is_empty(),
                    _ => false,
                });
                assert!(!owned, "somebody else's: {args:?}");
            }
            if word == "merge" {
                match replies.last() {
                    Some(Reply::Output(o)) => assert_eq!(o.stdout.trim(), "main"),
                    other => panic!("merged after {other:?}"),
                }
            }
        }
        Action::WriteSessions { .. } => {
            assert!(matches!(mode, ServerMode::Full));
            assert!(matches!(
                call,
                ToolCall::WorktreeAdd { .. }
                    | ToolCall::WorktreeRemove { .. }
                    | ToolCall::SessionRelease { .. }
            ));
        }
        _ => {}
    }
}

#[test]
fn every_call_keeps_to_its_own_and_ends() {
    let mut dice = Dice(20240501);
    let mut ended: u64 = 0;
    for round in 0..300 {
        for call in &calls() {
            let mode = [ServerMode::Full, ServerMode::Full, ServerMode::ReadOnly, ServerMode::ReadRemote]
                [round % 4];
            let mut server = GitWorkflowServer::new(mode);
            let replies = vec![Reply::Flag(true)];
            let start = ToolCall::SessionStart { repo_root: s(["/repo", "repo"][round / 4 % 2]) };
            server.call(&start, &replies, 0).expect("started");

            let mut replies: Vec<Reply> = Vec::new();
            loop {
                match server.call(call, &replies, 0) {
                    Err(Halt::Ask(action)) => {
                        fits(mode, call, &action, &replies);
                        let reply = reply_to(&action, &mut dice);
                        replies.push(reply);
                        assert!(replies.len() <= 17 + 3, "{} does not end", call.tool());
                    }
                    Err(Halt::Mismatch) => panic!("{}: a right answer was not understood", call.tool()),
                    settled => {
                        // Further replies change nothing.
                        let before = format!("{settled:?}");
                        replies.push(Reply::Completed);
                        replies.push(Reply::Flag(false));
                        let after = format!("{:?}", server.call(call, &replies, 0));
                        assert_eq!(before, after);
                        ended += 1;
                        break;
                    }
                }
            }
        }
    }
    assert_eq!(ended, 300 * calls().len() as u64);
}

#[test]
fn tools_that_are_held_back_ask_for_nothing() {
    for call in &calls() {
        for mode in &[ServerMode::ReadOnly, ServerMode::ReadRemote] {
            if !mode.exposes(call.tool()) {
                let mut server = GitWorkflowServer::new(*mode);
                match server.call(call, &[], 0) {
                    Err(Halt::Fail(_, 0)) => {}
                    other => panic!("{}: {other:?}", call.tool()),
                }
            }
        }
    }
}

#[test]
fn the_modes_nest() {
    for call in &calls() {
        let tool = call.tool();
        assert!(ServerMode::Full.exposes(tool));
        assert!(!ServerMode::ReadOnly.exposes(tool) || ServerMode::ReadRemote.exposes(tool));
    }
}

#[test]
fn counts_are_read_as_they_are_written() {
    for behind in &[0u32, 1, 9, 10, 4294967295] {
        for ahead in &[0u32, 2, 1000000, 4294967295] {
            assert_eq!(parse_counts(&format!("{behind}\t{ahead}")), Some((*behind, *ahead)));
        }
    }
}

#[test]
fn accepted_names_are_plain() {
    for c in " \t\n;|&$`\"'\\#!()<>".chars() {
        let name = format!("a{c}b");
        assert!(validate_remote_name(&name).is_err(), "{name:?}");
        assert!(validate_refspec(&name).is_err(), "{name:?}");
    }
    for c in "*+~^:".chars() {
        let name = format!("a{c}b");
        assert!(validate_remote_name(&name).is_err(), "{name:?}");
        assert!(validate_refspec(&name).is_ok(), "{name:?}");
    }
    for name in &["a", "A-9", "a/b.c_d"] {
        assert!(validate_remote_name(name).is_ok() && validate_refspec(name).is_ok());
    }
}
