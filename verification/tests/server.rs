//! The tools, called on a server whose world is a script: the git commands in their
//! order, the paths that are there, and the session records.

use git_workflow_mcp::domain::session::{SessionId, WorktreeSession};
use git_workflow_mcp::domain::worktree::Worktree;
use git_workflow_mcp::interface::mcp::mode::{instructions, ServerMode, ToolError};
use git_workflow_mcp::interface::mcp::server::GitWorkflowServer;
use git_workflow_mcp::interface::mcp::tools::{
    check_branch_owner, render_log, render_worktrees, truncate_diff, DiffRequest,
};
use git_workflow_mcp::interface::mcp::{ToolCall, ToolOutput};
use git_workflow_mcp::protocol::{Action, CommandOutput, Halt, Reply};

/// The paths that are there, the session records, and the git commands to come.
struct World {
    paths: Vec<String>,
    records: Option<Vec<WorktreeSession>>,
    readable: bool,
    git: Vec<(String, Reply)>,
}

impl World {
    fn new() -> World {
        World {
            paths: vec!["/repo/.git".to_string()],
            records: None,
            readable: true,
            git: Vec::new(),
        }
    }

    /// The next git command, and what it prints.
    fn git(&mut self, line: &str, text: &str) {
        self.git.push((
            line.to_string(),
            Reply::Output(CommandOutput {
                code: Some(0),
                stdout: text.to_string(),
                stderr: String::new(),
            }),
        ));
    }

    /// The next git command, and what it complains of.
    fn git_fails(&mut self, line: &str, text: &str) {
        self.git.push((
            line.to_string(),
            Reply::Output(CommandOutput {
                code: Some(1),
                stdout: String::new(),
                stderr: text.to_string(),
            }),
        ));
    }

    fn answer(&mut self, action: &Action) -> Reply {
        match action {
            Action::Git { dir, args } => {
                assert!(!self.git.is_empty(), "unexpected: git {args:?}");
                let (line, reply) = self.git.remove(0);
                assert_eq!(format!("git -C {dir} {}", args.join(" ")), line);
                reply
            }
            Action::PathExists { path } if path.ends_with(".sessions.json") => {
                Reply::Flag(self.records.is_some())
            }
            Action::PathExists { path } => Reply::Flag(self.paths.contains(path)),
            Action::IsDirectory { path } => Reply::Flag(self.paths.contains(path)),
            Action::Canonicalize { path } => Reply::Path(path.clone()),
            Action::MakeAbsolute { path } => Reply::Path(format!("/cwd/{path}")),
            Action::ReadVariable { .. } => Reply::Variable(None),
            Action::ReadClock => Reply::Clock(Some(42)),
            Action::ReadSessions { .. } if !self.readable => {
                Reply::Malformed("garbled".to_string())
            }
            Action::ReadSessions { .. } => Reply::Sessions(self.records.clone().unwrap()),
            Action::WriteSessions { sessions, .. } => {
                self.records = Some(sessions.clone());
                Reply::Completed
            }
            Action::CreateDirAll { .. }
            | Action::OpenLock { .. }
            | Action::LockExclusive { .. }
            | Action::Unlock { .. } => Reply::Completed,
        }
    }

    /// Makes a call and sees it through.
    fn call(
        &mut self,
        server: &mut GitWorkflowServer,
        call: &ToolCall,
    ) -> Result<ToolOutput, ToolError> {
        let mut replies: Vec<Reply> = Vec::new();
        loop {
            match server.call(call, &replies, 0) {
                Ok((output, end)) => {
                    assert_eq!(end, replies.len());
                    assert!(self.git.is_empty(), "git was not run as often as expected");
                    return Ok(output);
                }
                Err(Halt::Fail(e, _)) => return Err(e),
                Err(Halt::Mismatch) => panic!("a reply of the wrong kind"),
                Err(Halt::Ask(action)) => {
                    let reply = self.answer(&action);
                    replies.push(reply);
                }
            }
        }
    }

    /// Makes a call that must succeed with a text.
    fn text(&mut self, server: &mut GitWorkflowServer, call: &ToolCall) -> String {
        match self.call(server, call) {
            Ok(ToolOutput::Text(text)) => text,
            other => panic!("no text: {other:?}"),
        }
    }
}

fn s(text: &str) -> String {
    text.to_string()
}

fn start() -> ToolCall {
    ToolCall::SessionStart { repo_root: s("/repo") }
}

fn record(name: &str, branch: &str, id: &str) -> WorktreeSession {
    WorktreeSession {
        worktree_name: s(name),
        branch: s(branch),
        session_id: SessionId::recorded(s(id)),
        created_at: s("0"),
    }
}

fn diff_of_repo() -> DiffRequest {
    DiffRequest {
        working_dir: s("/repo"),
        staged: None,
        commit_range: None,
        paths: None,
        name_only: None,
        max_lines: None,
    }
}

fn all_tools() -> Vec<String> {
    [
        "session_start", "worktree_add", "worktree_remove", "session_release", "worktree_list",
        "branch_delete", "commit", "merge", "status", "diff", "log", "safe_reset", "fetch",
        "remote_list", "branch_status", "unpushed_commits", "is_pushed", "tag_pushed",
        "reset_target", "worktree_state",
    ]
    .iter()
    .map(|t| t.to_string())
    .collect()
}

// ---------------------------------------------------------------------------
// Modes
// ---------------------------------------------------------------------------

#[test]
fn test_list_tools() {
    let tool_names = ServerMode::default().tools();
    assert!(tool_names.contains(&s("session_start")));
    assert!(tool_names.contains(&s("worktree_add")));
    assert!(tool_names.contains(&s("worktree_remove")));
    assert!(tool_names.contains(&s("worktree_list")));
    assert!(tool_names.contains(&s("branch_delete")));
    assert!(tool_names.contains(&s("commit")));
    assert!(tool_names.contains(&s("merge")));
    assert!(tool_names.contains(&s("status")));
    assert!(tool_names.contains(&s("diff")));
    assert!(tool_names.contains(&s("log")));
    assert!(tool_names.contains(&s("safe_reset")));
    assert_eq!(tool_names, all_tools());
}

#[test]
fn test_full_mode_has_all_tools() {
    for tool in &all_tools() {
        assert!(ServerMode::Full.exposes(tool), "{tool}");
        assert!(ServerMode::Full.permit(tool).is_ok(), "{tool}");
    }
    assert!(!ServerMode::Full.exposes("push"));
    assert!(ServerMode::Full.permit("push").is_ok());
}

#[test]
fn test_read_only_list_tools() {
    let tool_names = ServerMode::ReadOnly.tools();
    for write_tool in
        &["commit", "merge", "worktree_add", "worktree_remove", "branch_delete", "safe_reset"]
    {
        assert!(
            !tool_names.contains(&s(write_tool)),
            "read-only mode should not expose write tool '{write_tool}', got: {tool_names:?}"
        );
    }
    assert!(tool_names.contains(&s("session_start")));
    assert!(tool_names.contains(&s("status")));
    assert!(tool_names.contains(&s("diff")));
    assert!(tool_names.contains(&s("log")));
    assert!(tool_names.contains(&s("worktree_list")));
    assert_eq!(tool_names.len(), 5);
}

#[test]
fn read_remote_adds_the_two_remote_tools() {
    let tool_names = ServerMode::ReadRemote.tools();
    assert_eq!(
        tool_names,
        vec![
            s("session_start"),
            s("worktree_list"),
            s("status"),
            s("diff"),
            s("log"),
            s("fetch"),
            s("remote_list"),
        ]
    );
    assert_eq!(
        ServerMode::ReadRemote.permit("merge").unwrap_err(),
        ToolError::InvalidParams(s("tool 'merge' is not available in read-remote mode"))
    );
    assert!(ServerMode::ReadRemote.permit("no_such_tool").is_ok());
    assert!(ServerMode::ReadRemote.permit("fetch").is_ok());
    assert!(ServerMode::ReadOnly.permit("fetch").is_err());
}

#[test]
fn test_read_only_blocks_write() {
    let mut world = World::new();
    let mut server = GitWorkflowServer::new(ServerMode::ReadOnly);
    assert!(world.text(&mut server, &start()).contains("Session started."));
    let result = world.call(
        &mut server,
        &ToolCall::Commit { working_dir: s("/repo"), message: s("should fail"), paths: None },
    );
    assert!(
        result.is_err(),
        "commit should be blocked in read-only mode"
    );
    assert_eq!(
        result.unwrap_err(),
        ToolError::InvalidParams(s("tool 'commit' is not available in read-only mode"))
    );
}

#[test]
fn test_read_only_allows_read() {
    let mut world = World::new();
    let mut server = GitWorkflowServer::new(ServerMode::ReadOnly);
    world.git("git -C /repo branch --show-current", "main\n");
    world.git("git -C /repo status --short", "");
    let text = world.text(&mut server, &ToolCall::Status { working_dir: s("/repo") });
    assert!(text.contains("Branch:"));
    world.git("git -C /repo diff --stat", "");
    world.git("git -C /repo diff", "");
    let text = world.text(&mut server, &ToolCall::Diff(diff_of_repo()));
    assert_eq!(text, "No changes.", "diff should succeed in read-only mode");
    world.git("git -C /repo log --oneline -5", "1111111 initial\n");
    let text = world.text(
        &mut server,
        &ToolCall::Log { working_dir: s("/repo"), range: None, max_count: Some(5) },
    );
    assert!(text.contains("initial"));
}

#[test]
fn the_instructions_name_the_mode() {
    let full = instructions(ServerMode::Full);
    assert!(full.starts_with("Git workflow operations for agent pipelines.\n\nIMPORTANT: Call "));
    assert!(full.ends_with("take ownership of an orphan worktree from a previous session"));
    assert_eq!(
        instructions(ServerMode::ReadOnly),
        format!(
            "{full}\n\nNOTE: This server is running in read-only mode. Write operations are disabled."
        )
    );
    assert!(instructions(ServerMode::ReadRemote).ends_with(
        "Write operations are disabled; fetch and remote_list are available for remote sync (no push)."
    ));
}

// ---------------------------------------------------------------------------
// Sessions
// ---------------------------------------------------------------------------

#[test]
fn test_session_start() {
    let mut world = World::new();
    let mut server = GitWorkflowServer::new(ServerMode::Full);
    let text = world.text(&mut server, &start());
    assert!(text.contains("Session started."));
    assert!(text.contains("Session ID:"));
    assert_eq!(
        text,
        format!(
            "Session started.\n- Session ID: {}\n- Repo root: /repo",
            server.session_id().as_str()
        )
    );
    assert_eq!(server.repo_root(0).expect("started").0, "/repo");
    // A bare repository has its head right at the root.
    world.paths.push(s("/bare/HEAD"));
    world.text(&mut server, &ToolCall::SessionStart { repo_root: s("/bare") });
    assert_eq!(server.repo_root(0).expect("started").0, "/bare");
}

#[test]
fn test_session_start_invalid_repo() {
    let mut world = World::new();
    let mut server = GitWorkflowServer::new(ServerMode::Full);
    let result = world.call(
        &mut server,
        &ToolCall::SessionStart { repo_root: s("/tmp/nonexistent-repo-12345") },
    );
    assert!(result.is_err());
    assert_eq!(
        result.unwrap_err(),
        ToolError::Internal(s("not a git repository: /tmp/nonexistent-repo-12345"))
    );
    assert!(server.repo_root(0).is_err());
    // A session that has started stays where it is.
    world.text(&mut server, &start());
    world
        .call(&mut server, &ToolCall::SessionStart { repo_root: s("/nowhere") })
        .expect_err("no repository");
    assert_eq!(server.repo_root(0).expect("started").0, "/repo");
}

#[test]
fn without_a_session_nothing_is_asked_for() {
    let calls = vec![
        ToolCall::WorktreeAdd { name: s("a"), branch: s("b"), base_branch: None },
        ToolCall::WorktreeRemove { name: s("a") },
        ToolCall::WorktreeList,
        ToolCall::SessionRelease { name: s("a") },
        ToolCall::BranchDelete { branch: s("b"), working_dir: None },
        ToolCall::Merge { branch: s("b"), into_branch: s("c"), working_dir: None },
    ];
    for call in &calls {
        let mut server = GitWorkflowServer::new(ServerMode::Full);
        match server.call(call, &[], 0) {
            Err(Halt::Fail(e, 0)) => assert_eq!(
                e,
                ToolError::Internal(s("session not started: call session_start(repo_root) first"))
            ),
            other => panic!("{}: {other:?}", call.tool()),
        }
    }
}

#[test]
fn test_worktree_lifecycle() {
    let mut world = World::new();
    let mut server = GitWorkflowServer::new(ServerMode::Full);
    let id = server.session_id().to_string();
    let path = "/repo/.worktrees/test-feature";

    assert!(world.text(&mut server, &start()).contains("Session started."));

    world.git_fails("git -C /repo show-ref --verify --quiet refs/heads/task/test-feature", "");
    world.git("git -C /repo branch task/test-feature", "");
    world.git("git -C /repo worktree add /repo/.worktrees/test-feature task/test-feature", "");
    let text = world.text(
        &mut server,
        &ToolCall::WorktreeAdd {
            name: s("test-feature"),
            branch: s("task/test-feature"),
            base_branch: None,
        },
    );
    assert!(text.contains("Worktree created."));
    assert!(text.contains("task/test-feature"));
    assert_eq!(
        text,
        format!("Worktree created.\n- Path: {path}\n- Branch: task/test-feature\n- Session: {id}")
    );
    world.paths.push(s(path));
    assert_eq!(world.records.clone().unwrap()[0].created_at, "42");

    world.git(
        "git -C /repo worktree list --porcelain",
        "worktree /repo\nHEAD 1\nbranch refs/heads/main\n\nworktree /repo/.worktrees/test-feature\nHEAD 1\nbranch refs/heads/task/test-feature\n\n",
    );
    let text = world.text(&mut server, &ToolCall::WorktreeList);
    assert!(text.contains("test-feature"));
    assert!(text.contains("(this session)"));
    assert_eq!(
        text,
        format!(
            "- /repo [main] owner=untracked\n- {path} [task/test-feature] owner=session:{id} (this session)"
        )
    );

    world.git("git -C /repo worktree remove --force /repo/.worktrees/test-feature", "");
    let text = world.text(&mut server, &ToolCall::WorktreeRemove { name: s("test-feature") });
    assert!(text.contains("removed"));
    assert_eq!(text, "Worktree 'test-feature' removed.");
    assert!(world.records.clone().unwrap().is_empty());

    world.git("git -C /repo branch -d task/test-feature", "Deleted branch");
    let text = world.text(
        &mut server,
        &ToolCall::BranchDelete { branch: s("task/test-feature"), working_dir: None },
    );
    assert!(text.contains("deleted"));
    assert_eq!(text, "Branch 'task/test-feature' deleted.");
}

#[test]
fn orphans_are_released_before_they_are_cleaned_up() {
    let mut world = World::new();
    world.records = Some(vec![record("old", "task/old", "gone"), record("x", "y", "other")]);
    world.paths.push(s("/repo/.worktrees/old"));
    let mut server = GitWorkflowServer::new(ServerMode::Full);
    let id = server.session_id().to_string();
    world.text(&mut server, &start());
    let refused =
        format!("session mismatch: worktree 'old' belongs to session 'gone', not '{id}'");

    let remove = ToolCall::WorktreeRemove { name: s("old") };
    let delete = ToolCall::BranchDelete { branch: s("task/old"), working_dir: None };
    let merge = ToolCall::Merge {
        branch: s("task/old"),
        into_branch: s("main"),
        working_dir: None,
    };
    for call in &[&remove, &delete, &merge] {
        assert_eq!(
            world.call(&mut server, call).unwrap_err(),
            ToolError::Internal(refused.clone())
        );
    }

    let release = ToolCall::SessionRelease { name: s("old") };
    for _ in 0..2 {
        assert_eq!(
            world.text(&mut server, &release),
            "Session ownership released for worktree 'old'."
        );
        assert_eq!(world.records.clone().unwrap().len(), 1);
    }

    world.git("git -C /repo branch --show-current", "main\n");
    world.git("git -C /repo merge task/old --no-ff -m merge: task/old", "Merge made.\n");
    assert_eq!(
        world.text(&mut server, &merge),
        "Merged 'task/old' into 'main'.\nMerge made."
    );
    world.git("git -C /repo worktree remove --force /repo/.worktrees/old", "");
    world.text(&mut server, &remove);
    world.git("git -C /repo branch -d task/old", "");
    world.text(&mut server, &delete);
}

#[test]
fn records_that_cannot_be_read_guard_worktrees_but_not_branches() {
    let mut world = World::new();
    world.records = Some(vec![record("old", "task/old", "gone")]);
    world.readable = false;
    let mut server = GitWorkflowServer::new(ServerMode::Full);
    world.text(&mut server, &start());
    assert_eq!(
        world.call(&mut server, &ToolCall::WorktreeRemove { name: s("old") }).unwrap_err(),
        ToolError::Internal(s("git error: garbled"))
    );
    world.git("git -C /repo branch -d task/old", "");
    world.text(
        &mut server,
        &ToolCall::BranchDelete { branch: s("task/old"), working_dir: None },
    );
    world.git("git -C /repo worktree list --porcelain", "");
    assert_eq!(
        world.text(&mut server, &ToolCall::WorktreeList),
        "No worktrees (besides main)."
    );
}

#[test]
fn the_list_names_the_owners_of_the_worktrees_themselves() {
    let worktree = |path: &str, branch: Option<&str>, is_bare: bool| Worktree {
        path: s(path),
        branch: branch.map(s),
        is_bare,
    };
    let me = SessionId::recorded(s("me"));
    let sessions = vec![
        record("b", "x", "other"),
        record("ab", "y", "me"),
        record("foo", "u", "other"),
        record("d/b", "v", "me"),
        record("ab", "w", "late"),
        record("/tmp/foo", "t", "me"),
        record("x/.worktrees/b", "q", "me"),
    ];
    let all = vec![
        worktree("/bare", None, true),
        worktree("/w/ab", None, false),
        worktree("/w/c", Some("main"), false),
        worktree("/r/.worktrees/my-foo", Some("z"), false),
        worktree("/r/.worktrees/foo", Some("u"), false),
        worktree("/r/.worktrees/d/b", Some("v"), false),
        worktree("/tmp/foo", Some("t"), false),
        worktree("/tmp/d/b", None, false),
        worktree("/r/.worktrees/x/.worktrees/b", Some("q"), false),
        worktree("/s/.worktrees/b", Some("x"), false),
        worktree("/r/.worktrees/e/b", Some("p"), false),
    ];
    assert_eq!(
        render_worktrees(&all, "/r", &sessions, &me),
        "- /w/ab [(detached)] owner=session:me (this session)\n\
         - /w/c [main] owner=untracked\n\
         - /r/.worktrees/my-foo [z] owner=untracked\n\
         - /r/.worktrees/foo [u] owner=session:other\n\
         - /r/.worktrees/d/b [v] owner=session:me (this session)\n\
         - /tmp/foo [t] owner=session:me (this session)\n\
         - /tmp/d/b [(detached)] owner=session:other\n\
         - /r/.worktrees/x/.worktrees/b [q] owner=session:me (this session)\n\
         - /s/.worktrees/b [x] owner=session:other\n\
         - /r/.worktrees/e/b [p] owner=untracked"
    );
    assert_eq!(render_worktrees(&all[..1], "/r", &sessions, &me), "No worktrees (besides main).");
    assert!(check_branch_owner(&sessions, "y", &me).is_ok());
    assert!(check_branch_owner(&sessions, "z", &me).is_ok());
    assert_eq!(
        check_branch_owner(&sessions, "x", &me).unwrap_err().to_string(),
        "session mismatch: worktree 'b' belongs to session 'other', not 'me'"
    );
}

// ---------------------------------------------------------------------------
// Working directories
// ---------------------------------------------------------------------------

#[test]
fn test_status_tool() {
    let mut world = World::new();
    let mut server = GitWorkflowServer::new(ServerMode::Full);
    let call = ToolCall::Status { working_dir: s("/repo") };
    world.git("git -C /repo branch --show-current", "main\n");
    world.git("git -C /repo status --short", "");
    let text = world.text(&mut server, &call);
    assert!(text.contains("Branch:"));
    assert!(text.contains("Clean: true"));
    assert_eq!(text, "Branch: main\nClean: true\n");
    world.git("git -C /repo branch --show-current", "main\n");
    world.git("git -C /repo status --short", "?? a\n?? b\n");
    assert_eq!(
        world.text(&mut server, &call),
        "Branch: main\nClean: false\n2 changed file(s):\n  ?? a\n  ?? b\n"
    );
}

#[test]
fn test_diff_no_changes() {
    let mut world = World::new();
    let mut server = GitWorkflowServer::new(ServerMode::Full);
    world.git("git -C /repo diff --stat", "");
    world.git("git -C /repo diff", "");
    assert_eq!(world.text(&mut server, &ToolCall::Diff(diff_of_repo())), "No changes.");
}

#[test]
fn test_log_tool() {
    let mut world = World::new();
    let mut server = GitWorkflowServer::new(ServerMode::Full);
    world.git("git -C /repo log --oneline -5", "1111111 initial\n");
    let text = world.text(
        &mut server,
        &ToolCall::Log { working_dir: s("/repo"), range: None, max_count: Some(5) },
    );
    assert!(text.contains("initial"));
    assert_eq!(text, "1111111 initial");
    world.git("git -C /repo log --oneline -20 a..b", "1 x\n2 y z\n");
    let call = ToolCall::Log { working_dir: s("/repo"), range: Some(s("a..b")), max_count: None };
    assert_eq!(world.text(&mut server, &call), "1 x\n2 y z");
    assert_eq!(render_log(&[]), "No commits.");
}

#[test]
fn test_safe_reset_soft() {
    let mut world = World::new();
    let mut server = GitWorkflowServer::new(ServerMode::Full);
    world.git("git -C /repo rev-parse --short HEAD", "2222222\n");
    world.git("git -C /repo reset --soft HEAD~1", "");
    world.git("git -C /repo rev-parse --short HEAD", "1111111\n");
    let text = world.text(
        &mut server,
        &ToolCall::SafeReset {
            working_dir: s("/repo"),
            mode: Some(s("soft")),
            target: Some(s("HEAD~1")),
        },
    );
    assert!(text.contains("Reset completed (soft)."));
    assert!(text.contains("Previous HEAD:"));
    assert!(text.contains("New HEAD:"));
    assert!(text.contains("To undo: git reset --soft"));
    assert_eq!(
        text,
        "Reset completed (soft).\n- Previous HEAD: 2222222\n- New HEAD: 1111111\n- Target: HEAD~1\nTo undo: git reset --soft 2222222"
    );
    world.git("git -C /repo diff --stat --cached", " file1.txt | 1 +\n");
    world.git("git -C /repo diff --cached", "+hello\n");
    let staged = DiffRequest { staged: Some(true), ..diff_of_repo() };
    let diff_text = world.text(&mut server, &ToolCall::Diff(staged));
    assert!(
        diff_text.contains("file1.txt"),
        "staged changes should contain file1.txt after soft reset"
    );
    assert_eq!(diff_text, "file1.txt | 1 +\n\n+hello");
}

#[test]
fn test_safe_reset_mixed() {
    let mut world = World::new();
    let mut server = GitWorkflowServer::new(ServerMode::Full);
    world.git("git -C /repo rev-parse --short HEAD", "2222222\n");
    world.git("git -C /repo reset --mixed HEAD~1", "");
    world.git("git -C /repo rev-parse --short HEAD", "1111111\n");
    let text = world.text(
        &mut server,
        &ToolCall::SafeReset {
            working_dir: s("/repo"),
            mode: Some(s("mixed")),
            target: Some(s("HEAD~1")),
        },
    );
    assert!(text.contains("Reset completed (mixed)."));
    assert!(text.contains("Previous HEAD:"));
    assert!(text.contains("New HEAD:"));
    world.git("git -C /repo diff --stat --cached", "");
    world.git("git -C /repo diff --cached", "");
    let staged = DiffRequest { staged: Some(true), ..diff_of_repo() };
    let staged_diff_text = world.text(&mut server, &ToolCall::Diff(staged));
    assert!(
        staged_diff_text.contains("No changes."),
        "staged diff should be empty after mixed reset, got: {staged_diff_text}"
    );
    world.git("git -C /repo branch --show-current", "main\n");
    world.git("git -C /repo status --short", "?? file2.txt\n");
    let status_text = world.text(&mut server, &ToolCall::Status { working_dir: s("/repo") });
    assert!(
        status_text.contains("file2.txt"),
        "status should show file2.txt after mixed reset, got: {status_text}"
    );
    // Neither the mode nor the target has to be given.
    world.git("git -C /repo rev-parse --short HEAD", "1");
    world.git("git -C /repo reset --mixed HEAD~1", "");
    world.git("git -C /repo rev-parse --short HEAD", "2");
    world.text(
        &mut server,
        &ToolCall::SafeReset { working_dir: s("/repo"), mode: None, target: None },
    );
}

#[test]
fn test_safe_reset_invalid_mode() {
    let mut world = World::new();
    let mut server = GitWorkflowServer::new(ServerMode::Full);
    let result = world.call(
        &mut server,
        &ToolCall::SafeReset {
            working_dir: s("/repo"),
            mode: Some(s("hard")),
            target: Some(s("HEAD~1")),
        },
    );
    assert!(result.is_err(), "hard mode should return an error");
    assert_eq!(
        result.unwrap_err(),
        ToolError::Internal(s(
            "git error: unsupported reset mode: hard. Only 'soft' and 'mixed' are allowed"
        ))
    );
}

#[test]
fn test_diff_commit_range() {
    let mut world = World::new();
    let mut server = GitWorkflowServer::new(ServerMode::Full);
    world.git("git -C /repo diff --stat HEAD~1..HEAD", " feature.txt | 1 +\n");
    world.git("git -C /repo diff HEAD~1..HEAD", "+feature content\n");
    let request = DiffRequest { commit_range: Some(s("HEAD~1..HEAD")), ..diff_of_repo() };
    let text = world.text(&mut server, &ToolCall::Diff(request));
    assert!(
        text.contains("feature.txt"),
        "commit range diff should include feature.txt, got: {text}"
    );
}

#[test]
fn test_diff_name_only() {
    let mut world = World::new();
    let mut server = GitWorkflowServer::new(ServerMode::Full);
    world.git("git -C /repo diff --name-only HEAD~0", "");
    let request = DiffRequest {
        commit_range: Some(s("HEAD~0")),
        name_only: Some(true),
        ..diff_of_repo()
    };
    let text = world.text(&mut server, &ToolCall::Diff(request));
    assert!(
        !text.contains("---"),
        "name_only should not contain patch, got: {text}"
    );
}

#[test]
fn test_diff_name_only_staged() {
    let mut world = World::new();
    let mut server = GitWorkflowServer::new(ServerMode::Full);
    world.git("git -C /repo diff --name-only --cached", "staged_file.txt\n");
    let request =
        DiffRequest { staged: Some(true), name_only: Some(true), ..diff_of_repo() };
    let text = world.text(&mut server, &ToolCall::Diff(request));
    assert!(
        text.contains("staged_file.txt"),
        "name_only staged diff should contain staged_file.txt, got: {text}"
    );
    assert!(
        !text.contains("+++"),
        "name_only should not contain patch headers, got: {text}"
    );
}

#[test]
fn test_diff_paths() {
    let mut world = World::new();
    let mut server = GitWorkflowServer::new(ServerMode::Full);
    world.git("git -C /repo diff --stat --cached -- target.txt", " target.txt | 1 +\n");
    world.git("git -C /repo diff --cached -- target.txt", "+target content\n");
    let request = DiffRequest {
        staged: Some(true),
        paths: Some(vec![s("target.txt")]),
        ..diff_of_repo()
    };
    let text = world.text(&mut server, &ToolCall::Diff(request));
    assert!(
        text.contains("target.txt"),
        "paths filter should include target.txt, got: {text}"
    );
    assert!(
        !text.contains("other.txt"),
        "paths filter should exclude other.txt, got: {text}"
    );
}

#[test]
fn test_diff_max_lines() {
    let mut world = World::new();
    let mut server = GitWorkflowServer::new(ServerMode::Full);
    let patch: String = (1..=30).map(|i| format!("+line {i}\n")).collect();
    world.git("git -C /repo diff --stat HEAD~1..HEAD", " large.txt | 30 +++\n");
    world.git("git -C /repo diff HEAD~1..HEAD", &patch);
    let request = DiffRequest {
        commit_range: Some(s("HEAD~1..HEAD")),
        max_lines: Some(5),
        ..diff_of_repo()
    };
    let text = world.text(&mut server, &ToolCall::Diff(request));
    assert!(
        text.contains("truncated"),
        "max_lines should truncate output, got: {text}"
    );
    assert!(
        text.contains("showing 5/"),
        "truncation message should show 5 lines shown, got: {text}"
    );
    assert_eq!(
        text,
        "large.txt | 30 +++\n\n+line 1\n+line 2\n+line 3\n+line 4\n+line 5\n... (truncated, showing 5/30 lines)"
    );
    assert_eq!(truncate_diff(s("a\nb\n"), Some(2)), "a\nb\n");
    assert_eq!(truncate_diff(s("a\nb\n"), None), "a\nb\n");
    assert_eq!(truncate_diff(s("a\nb"), Some(0)), "\n... (truncated, showing 0/2 lines)");
    assert_eq!(truncate_diff(s("a\nb\nc"), Some(2)).lines().count(), 3);
}

#[test]
fn test_diff_staged_with_commit_range_error() {
    let mut world = World::new();
    let mut server = GitWorkflowServer::new(ServerMode::Full);
    let request = DiffRequest {
        staged: Some(true),
        commit_range: Some(s("HEAD~1..HEAD")),
        ..diff_of_repo()
    };
    let result = world.call(&mut server, &ToolCall::Diff(request));
    assert!(
        result.is_err(),
        "staged + commit_range should return an error"
    );
    assert_eq!(
        result.unwrap_err(),
        ToolError::Internal(s("staged and commit_range cannot be used together"))
    );
}

#[test]
fn test_diff_head() {
    let mut world = World::new();
    let mut server = GitWorkflowServer::new(ServerMode::Full);
    world.git("git -C /repo diff --stat HEAD", " staged.txt | 1 +\n");
    world.git("git -C /repo diff HEAD", "+staged\n");
    let request = DiffRequest { commit_range: Some(s("HEAD")), ..diff_of_repo() };
    let text = world.text(&mut server, &ToolCall::Diff(request));
    assert!(
        text.contains("staged.txt") || text.contains("unstaged.txt"),
        "HEAD diff should contain changed files, got: {text}"
    );
}

#[test]
fn committing_through_the_tool() {
    let mut world = World::new();
    let mut server = GitWorkflowServer::new(ServerMode::Full);
    world.git("git -C /w add -- a.txt", "");
    world.git("git -C /w diff --cached --stat", " a.txt | 1 +\n 1 file changed\n");
    world.git("git -C /w commit -m add a", "");
    world.git("git -C /w rev-parse --short HEAD", "abc1234\n");
    let call = ToolCall::Commit {
        working_dir: s("/w"),
        message: s("add a"),
        paths: Some(vec![s("a.txt")]),
    };
    assert_eq!(
        world.text(&mut server, &call),
        "Committed.\n- Hash: abc1234\n- Message: add a\n- Files changed: 1"
    );
}

// ---------------------------------------------------------------------------
// Answers with fields
// ---------------------------------------------------------------------------

#[test]
fn the_tools_that_answer_with_fields() {
    let mut world = World::new();
    let mut server = GitWorkflowServer::new(ServerMode::Full);
    let dir = || s("/w");

    world.git("git -C /w fetch origin", "fetched");
    let call = ToolCall::Fetch { working_dir: dir(), remote: None, refspec: None, prune: false };
    assert_eq!(world.text(&mut server, &call), "fetched");

    world.git("git -C /w remote -v", "origin\turl (fetch)");
    let call = ToolCall::RemoteList { working_dir: dir() };
    match world.call(&mut server, &call) {
        Ok(ToolOutput::Remotes(all)) => assert_eq!(all.len(), 1),
        other => panic!("{other:?}"),
    }

    world.git("git -C /w rev-list --left-right --count origin/main...main", "2\t1");
    world.git("git -C /w merge-base origin/main main", "abc123");
    world.git("git -C /w log --format=%H%x09%s origin/main..main", "1\ta");
    world.git("git -C /w log --format=%H%x09%s main..origin/main", "2\tb\n3\tc");
    let call = ToolCall::BranchStatus {
        working_dir: dir(),
        branch: s("main"),
        base: s("origin/main"),
    };
    match world.call(&mut server, &call) {
        Ok(ToolOutput::Branch(status)) => {
            assert_eq!((status.ahead, status.behind, status.up_to_date), (1, 2, false));
            assert_eq!(status.behind_commits.len(), 2);
        }
        other => panic!("{other:?}"),
    }

    world.git("git -C /w rev-parse origin/main", "1");
    world.git("git -C /w log --format=%H%x09%s origin/main..main", "");
    let call = ToolCall::UnpushedCommits {
        working_dir: dir(),
        branch: s("main"),
        remote: s("origin"),
    };
    match world.call(&mut server, &call) {
        Ok(ToolOutput::Unpushed(unpushed)) => assert_eq!(unpushed.count, 0),
        other => panic!("{other:?}"),
    }

    world.git(
        "git -C /w for-each-ref --contains 1 --format=%(refname) refs/remotes/origin/",
        "refs/remotes/origin/main",
    );
    let call =
        ToolCall::IsPushed { working_dir: dir(), commit: s("1"), remote: s("origin") };
    match world.call(&mut server, &call) {
        Ok(ToolOutput::Pushed(result)) => assert!(result.pushed),
        other => panic!("{other:?}"),
    }

    world.git("git -C /w ls-remote --tags origin refs/tags/v1.2.0", "1\trefs/tags/v1.2.0");
    let call = ToolCall::TagPushed { working_dir: dir(), tag: s("v1.2.0"), remote: s("origin") };
    match world.call(&mut server, &call) {
        Ok(ToolOutput::Tag(status)) => {
            assert_eq!(status.remote_refs, vec![s("refs/tags/v1.2.0")])
        }
        other => panic!("{other:?}"),
    }

    world.git("git -C /w log --first-parent --format=%H%x09%P%x09%s -n 1 HEAD", "1\t0\tx");
    let call = ToolCall::ResetTarget { working_dir: dir(), steps_back: 0, from: s("HEAD") };
    match world.call(&mut server, &call) {
        Ok(ToolOutput::Target(target)) => assert_eq!(target.target_hash, "1"),
        other => panic!("{other:?}"),
    }

    world.git_fails("git -C /w rev-parse --abbrev-ref @{upstream}", "broken");
    let call = ToolCall::WorktreeState { working_dir: dir(), branch: Some(s("main")) };
    assert_eq!(
        world.call(&mut server, &call).unwrap_err(),
        ToolError::Internal(s("git error: broken"))
    );
}
