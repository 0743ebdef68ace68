//! The git operations, each driven with a transcript: what it asks for, and the
//! answer that it gets.

use git_workflow_mcp::domain::error::DomainError;
use git_workflow_mcp::infra::git::inspect::{parse_counts, parse_refs, target_of};
use git_workflow_mcp::infra::git::path::{absolute, rooted};
use git_workflow_mcp::infra::git::remote::parse_remotes;
use git_workflow_mcp::infra::git::working::parse_entries;
use git_workflow_mcp::infra::git::worktree::{branch_exists, parse_worktrees};
use git_workflow_mcp::infra::git::{
    branch_delete, branch_status, commit, diff, fetch, is_pushed, log, merge, remote_list, reset,
    reset_target, status, tag_pushed, unpushed_commits, worktree_add, worktree_add_impl,
    worktree_list, worktree_remove, worktree_state, DiffOptions,
};
use git_workflow_mcp::protocol::{Action, CommandOutput, Flow, Halt, Reply};

/// An action as a line.
fn shown(action: &Action) -> String {
    match action {
        Action::Git { dir, args } => format!("git -C {dir} {}", args.join(" ")),
        Action::PathExists { path } => format!("exists {path}"),
        Action::IsDirectory { path } => format!("is-dir {path}"),
        Action::Canonicalize { path } => format!("resolve {path}"),
        Action::MakeAbsolute { path } => format!("absolute {path}"),
        Action::ReadVariable { name } => format!("variable {name}"),
        other => format!("{other:?}"),
    }
}

/// Drives an operation through a transcript, all of which it must use.
fn play<T, E>(op: impl Fn(&[Reply]) -> Flow<T, E>, script: Vec<(&str, Reply)>) -> Result<T, E> {
    let mut replies: Vec<Reply> = Vec::new();
    let mut steps = script.into_iter();
    loop {
        match op(&replies) {
            Ok((value, end)) => {
                assert_eq!(end, replies.len());
                assert!(steps.next().is_none(), "the transcript goes on");
                return Ok(value);
            }
            Err(Halt::Fail(e, end)) => {
                assert_eq!(end, replies.len());
                assert!(steps.next().is_none(), "the transcript goes on");
                return Err(e);
            }
            Err(Halt::Mismatch) => panic!("a reply of the wrong kind"),
            Err(Halt::Ask(action)) => match steps.next() {
                Some((line, reply)) => {
                    assert_eq!(shown(&action), line);
                    replies.push(reply);
                }
                None => panic!("unexpected: {}", shown(&action)),
            },
        }
    }
}

/// A command that succeeds and prints `text`.
fn ok(text: &str) -> Reply {
    Reply::Output(CommandOutput {
        code: Some(0),
        stdout: text.to_string(),
        stderr: String::new(),
    })
}

/// A command that fails and complains.
fn bad(code: i32, text: &str) -> Reply {
    Reply::Output(CommandOutput {
        code: Some(code),
        stdout: String::new(),
        stderr: text.to_string(),
    })
}

fn yes() -> Reply {
    Reply::Flag(true)
}

fn no() -> Reply {
    Reply::Flag(false)
}

fn at(path: &str) -> Reply {
    Reply::Path(path.to_string())
}

fn unset() -> Reply {
    Reply::Variable(None)
}

const PORCELAIN: &str = "worktree /repo\nHEAD 1111\nbranch refs/heads/main\n\nworktree /repo/.worktrees/topic-dirty\nHEAD 2222\nbranch refs/heads/topic/dirty\n\n";

// ---------------------------------------------------------------------------
// Making worktrees
// ---------------------------------------------------------------------------

#[test]
fn test_worktree_add_with_base_branch_branches_correctly() {
    let result = play(
        |r| worktree_add("/repo", "wt-base", "task/from-base", Some("base/test"), r, 0),
        vec![
            ("variable GIT_WORKFLOW_ALLOW_DIRTY_BASE", unset()),
            ("exists /repo/.worktrees/wt-base", no()),
            ("git -C /repo show-ref --verify --quiet refs/heads/task/from-base", bad(1, "")),
            ("git -C /repo worktree list --porcelain", ok(PORCELAIN)),
            ("git -C /repo branch task/from-base base/test", ok("")),
            (
                "git -C /repo worktree add /repo/.worktrees/wt-base task/from-base",
                ok("HEAD is now at 1111 initial"),
            ),
        ],
    );
    assert!(
        result.is_ok(),
        "worktree_add with base_branch should succeed: {:?}",
        result
    );
    assert_eq!(result.unwrap(), "/repo/.worktrees/wt-base");
    let entries = play(
        |r| log("/repo/.worktrees/wt-base", None, 20, r, 0),
        vec![("git -C /repo/.worktrees/wt-base log --oneline -20", ok("1111 initial\n"))],
    )
    .expect("git log");
    assert_eq!(entries[0].message, "initial");
}

#[test]
fn test_worktree_add_nonexistent_base_branch_errors() {
    let result = play(
        |r| worktree_add("/repo", "wt-bad", "task/bad", Some("nonexistent/branch"), r, 0),
        vec![
            ("variable GIT_WORKFLOW_ALLOW_DIRTY_BASE", unset()),
            ("exists /repo/.worktrees/wt-bad", no()),
            ("git -C /repo show-ref --verify --quiet refs/heads/task/bad", bad(1, "")),
            ("git -C /repo worktree list --porcelain", ok(PORCELAIN)),
            (
                "git -C /repo branch task/bad nonexistent/branch",
                bad(128, "fatal: not a valid object name: 'nonexistent/branch'\n"),
            ),
        ],
    );
    assert!(result.is_err(), "nonexistent base_branch should error");
    assert_eq!(
        result.unwrap_err(),
        DomainError::Git("fatal: not a valid object name: 'nonexistent/branch'".to_string())
    );
}

#[test]
fn test_worktree_add_branch_collision_errors() {
    let result = play(
        |r| worktree_add("/repo", "wt-coll", "task/collision", Some("base/topic"), r, 0),
        vec![
            ("variable GIT_WORKFLOW_ALLOW_DIRTY_BASE", unset()),
            ("exists /repo/.worktrees/wt-coll", no()),
            ("git -C /repo show-ref --verify --quiet refs/heads/task/collision", ok("")),
        ],
    );
    assert!(result.is_err(), "branch collision should error");
    let err_msg = result.unwrap_err().to_string();
    assert!(
        err_msg.contains("branch already exists"),
        "error should mention 'branch already exists', got: {err_msg}"
    );
    assert_eq!(err_msg, "git error: branch already exists: task/collision");
}

#[test]
fn test_worktree_add_dirty_base_branch_errors_by_default() {
    play(
        |r| worktree_add_impl("/repo", "topic-dirty", "topic/dirty", None, false, r, 0),
        vec![
            ("exists /repo/.worktrees/topic-dirty", no()),
            ("git -C /repo show-ref --verify --quiet refs/heads/topic/dirty", bad(1, "")),
            ("git -C /repo branch topic/dirty", ok("")),
            ("git -C /repo worktree add /repo/.worktrees/topic-dirty topic/dirty", ok("")),
        ],
    )
    .expect("create topic worktree");

    let result = play(
        |r| {
            worktree_add_impl(
                "/repo",
                "subtask-from-dirty",
                "task/from-dirty",
                Some("topic/dirty"),
                false,
                r,
                0,
            )
        },
        vec![
            ("exists /repo/.worktrees/subtask-from-dirty", no()),
            ("git -C /repo show-ref --verify --quiet refs/heads/task/from-dirty", bad(1, "")),
            ("git -C /repo worktree list --porcelain", ok(PORCELAIN)),
            (
                "git -C /repo/.worktrees/topic-dirty status --porcelain",
                ok("?? dirty_file.txt\n"),
            ),
        ],
    );
    assert!(result.is_err(), "dirty base_branch should error by default");
    let err_msg = result.unwrap_err().to_string();
    assert!(
        err_msg.contains("uncommitted changes"),
        "error should mention uncommitted changes, got: {err_msg}"
    );
    assert_eq!(
        err_msg,
        "git error: base_branch has uncommitted changes: topic/dirty at /repo/.worktrees/topic-dirty"
    );
}

#[test]
fn test_worktree_add_dirty_base_branch_allowed_by_env() {
    let result = play(
        |r| {
            worktree_add_impl(
                "/repo",
                "subtask-from-dirty2",
                "task/from-dirty2",
                Some("topic/dirty2"),
                true,
                r,
                0,
            )
        },
        vec![
            ("exists /repo/.worktrees/subtask-from-dirty2", no()),
            ("git -C /repo show-ref --verify --quiet refs/heads/task/from-dirty2", bad(1, "")),
            ("git -C /repo branch task/from-dirty2 topic/dirty2", ok("")),
            (
                "git -C /repo worktree add /repo/.worktrees/subtask-from-dirty2 task/from-dirty2",
                ok(""),
            ),
        ],
    );
    assert!(
        result.is_ok(),
        "allow_dirty=true should allow dirty base, got: {:?}",
        result
    );
}

#[test]
fn new_worktrees_have_absolute_paths() {
    let made = play(
        |r| worktree_add_impl("repo", "wt", "b", None, false, r, 0),
        vec![
            ("absolute repo", at("/home/me/repo")),
            ("exists /home/me/repo/.worktrees/wt", no()),
            ("git -C repo show-ref --verify --quiet refs/heads/b", bad(1, "")),
            ("git -C repo branch b", ok("")),
            ("git -C repo worktree add /home/me/repo/.worktrees/wt b", ok("")),
        ],
    );
    assert_eq!(made.unwrap(), "/home/me/repo/.worktrees/wt");
    let made = play(
        |r| worktree_add_impl("C:\\r", "wt", "b", None, false, r, 0),
        vec![
            ("absolute C:\\r", at("C:\\r")),
            ("exists C:\\r/.worktrees/wt", no()),
            ("git -C C:\\r show-ref --verify --quiet refs/heads/b", bad(1, "")),
            ("git -C C:\\r branch b", ok("")),
            ("git -C C:\\r worktree add C:\\r/.worktrees/wt b", ok("")),
        ],
    );
    assert_eq!(made.unwrap(), "C:\\r/.worktrees/wt");
    let lost = play(
        |r| worktree_add_impl("repo", "wt", "b", None, false, r, 0),
        vec![("absolute repo", Reply::Failed("no current directory".to_string()))],
    );
    assert_eq!(lost.unwrap_err(), DomainError::Io("no current directory".to_string()));
    let odd = play(
        |r| worktree_add_impl("repo", "wt", "b", None, false, r, 0),
        vec![("absolute repo", at("elsewhere"))],
    );
    assert_eq!(
        odd.unwrap_err(),
        DomainError::Git("no absolute path for repo repo: elsewhere".to_string())
    );
}

#[test]
fn absolute_paths_of_all_systems_are_known() {
    for path in &["/", "/r", "C:\\r", "z:/r", "\\\\server\\share"] {
        assert!(absolute(path), "{path}");
    }
    for path in &["", "r", "r/s", "C:", "C:r", "1:\\r", "\\r", "é:\\r"] {
        assert!(!absolute(path), "{path}");
    }
    assert!(rooted("/r") && !rooted("C:\\r") && !rooted(""));
}

#[test]
fn the_variable_waives_the_check_of_the_base() {
    for value in &["1", "true", "yes"] {
        play(
            |r| worktree_add("/repo", "a", "b", Some("c"), r, 0),
            vec![
                (
                    "variable GIT_WORKFLOW_ALLOW_DIRTY_BASE",
                    Reply::Variable(Some(value.to_string())),
                ),
                ("exists /repo/.worktrees/a", no()),
                ("git -C /repo show-ref --verify --quiet refs/heads/b", bad(1, "")),
                ("git -C /repo branch b c", ok("")),
                ("git -C /repo worktree add /repo/.worktrees/a b", ok("")),
            ],
        )
        .expect("waived");
    }
    for value in &["0", "TRUE", ""] {
        let refused = play(
            |r| worktree_add("/repo", "a", "b", Some("topic/dirty"), r, 0),
            vec![
                (
                    "variable GIT_WORKFLOW_ALLOW_DIRTY_BASE",
                    Reply::Variable(Some(value.to_string())),
                ),
                ("exists /repo/.worktrees/a", no()),
                ("git -C /repo show-ref --verify --quiet refs/heads/b", bad(1, "")),
                ("git -C /repo worktree list --porcelain", ok(PORCELAIN)),
                ("git -C /repo/.worktrees/topic-dirty status --porcelain", ok(" M x")),
            ],
        );
        assert!(refused.is_err(), "not waived by {value:?}");
    }
}

#[test]
fn test_worktree_add_base_branch_not_checked_out_skips_dirty_check() {
    let result = play(
        |r| {
            worktree_add_impl(
                "/repo",
                "wt-from-ref",
                "task/from-ref",
                Some("base/ref-only"),
                false,
                r,
                0,
            )
        },
        vec![
            ("exists /repo/.worktrees/wt-from-ref", no()),
            ("git -C /repo show-ref --verify --quiet refs/heads/task/from-ref", bad(1, "")),
            ("git -C /repo worktree list --porcelain", ok(PORCELAIN)),
            ("git -C /repo branch task/from-ref base/ref-only", ok("")),
            ("git -C /repo worktree add /repo/.worktrees/wt-from-ref task/from-ref", ok("")),
        ],
    );
    assert!(
        result.is_ok(),
        "base_branch not checked out should skip dirty check and succeed: {:?}",
        result
    );
}

#[test]
fn test_worktree_add_base_branch_in_another_worktree() {
    let listing = "worktree /repo\nHEAD 1111\nbranch refs/heads/main\n\nworktree /repo/.worktrees/topic-shared\nHEAD 2222\nbranch refs/heads/topic/shared\n\n";
    let result = play(
        |r| {
            worktree_add_impl(
                "/repo",
                "subtask-from-shared",
                "task/from-shared",
                Some("topic/shared"),
                false,
                r,
                0,
            )
        },
        vec![
            ("exists /repo/.worktrees/subtask-from-shared", no()),
            ("git -C /repo show-ref --verify --quiet refs/heads/task/from-shared", bad(1, "")),
            ("git -C /repo worktree list --porcelain", ok(listing)),
            ("git -C /repo/.worktrees/topic-shared status --porcelain", ok("\n")),
            ("git -C /repo branch task/from-shared topic/shared", ok("")),
            (
                "git -C /repo worktree add /repo/.worktrees/subtask-from-shared task/from-shared",
                ok(""),
            ),
        ],
    );
    assert!(
        result.is_ok(),
        "clean base_branch in worktree should allow worktree_add: {:?}",
        result
    );
}

#[test]
fn a_worktree_that_is_there_is_not_made_again() {
    let result = play(
        |r| worktree_add("/repo/", "a", "b", None, r, 0),
        vec![
            ("variable GIT_WORKFLOW_ALLOW_DIRTY_BASE", unset()),
            ("exists /repo/.worktrees/a", yes()),
        ],
    );
    assert_eq!(
        result.unwrap_err(),
        DomainError::WorktreeAlreadyExists("a".to_string())
    );
}

#[test]
fn removing_a_worktree() {
    play(
        |r| worktree_remove("/repo", "a", r, 0),
        vec![
            ("exists /repo/.worktrees/a", yes()),
            ("git -C /repo worktree remove --force /repo/.worktrees/a", ok("")),
        ],
    )
    .expect("removed");
    let missing = play(
        |r| worktree_remove("/repo", "a", r, 0),
        vec![("exists /repo/.worktrees/a", no())],
    );
    assert_eq!(
        missing.unwrap_err(),
        DomainError::WorktreeNotFound("a".to_string())
    );
}

#[test]
fn listing_worktrees() {
    let listing = "worktree /bare\nbare\n\nworktree /bare/a\nHEAD 1111\nbranch refs/heads/topic/a\n\nworktree /bare/b\nHEAD 2222\ndetached\n";
    let all = play(
        |r| worktree_list("/bare", r, 0),
        vec![("git -C /bare worktree list --porcelain", ok(listing))],
    )
    .expect("list");
    assert_eq!(all.len(), 3);
    assert_eq!((all[0].path.as_str(), all[0].is_bare), ("/bare", true));
    assert_eq!(all[0].branch, None);
    assert_eq!(all[1].branch, Some("topic/a".to_string()));
    assert_eq!((all[2].path.as_str(), all[2].is_bare), ("/bare/b", false));
    assert_eq!(all[2].branch, None);
    assert!(parse_worktrees("").is_empty());
    assert!(parse_worktrees("branch refs/heads/main\nbare").is_empty());
    // The prefix is taken off as often as it stands there.
    let odd = parse_worktrees("worktree /r\nbranch refs/heads/refs/heads/x");
    assert_eq!(odd[0].branch, Some("x".to_string()));
}

// ---------------------------------------------------------------------------
// Merging and deleting
// ---------------------------------------------------------------------------

#[test]
fn test_merge_with_working_dir_succeeds() {
    let topic = "/repo/.worktrees/topic-mt";
    let result = play(
        |r| merge("/repo", "task/subtask-mt", "topic/mt", Some(topic), r, 0),
        vec![
            ("is-dir /repo/.worktrees/topic-mt", yes()),
            ("git -C /repo/.worktrees/topic-mt branch --show-current", ok("topic/mt\n")),
            (
                "git -C /repo/.worktrees/topic-mt merge task/subtask-mt --no-ff -m merge: task/subtask-mt",
                ok("Merge made by the 'ort' strategy.\n"),
            ),
        ],
    );
    assert!(
        result.is_ok(),
        "merge with working_dir should succeed: {:?}",
        result
    );
    let merged = result.unwrap();
    assert_eq!(merged.merged_branch, "task/subtask-mt");
    assert_eq!(merged.into_branch, "topic/mt");
    assert_eq!(merged.summary, "Merge made by the 'ort' strategy.");
}

#[test]
fn test_merge_with_working_dir_head_mismatch_errors() {
    let result = play(
        |r| {
            merge("/repo", "topic/mb", "topic/mb", Some("/repo/.worktrees/topic-ma"), r, 0)
        },
        vec![
            ("is-dir /repo/.worktrees/topic-ma", yes()),
            ("git -C /repo/.worktrees/topic-ma branch --show-current", ok("topic/ma\n")),
        ],
    );
    assert!(result.is_err(), "HEAD mismatch should error");
    assert_eq!(
        result.unwrap_err(),
        DomainError::Git(
            "must be on branch 'topic/mb' to merge, currently on 'topic/ma'".to_string()
        )
    );
}

#[test]
fn test_merge_without_working_dir_uses_repo_root() {
    let result = play(
        |r| merge("/repo", "task/compat-ut", "task/compat-ut", None, r, 0),
        vec![("git -C /repo branch --show-current", ok("main\n"))],
    );
    assert!(
        result.is_err(),
        "merge without working_dir should check repo root HEAD"
    );
}

#[test]
fn a_working_directory_must_be_one() {
    let result = play(
        |r| merge("/repo", "a", "b", Some("/nowhere"), r, 0),
        vec![("is-dir /nowhere", no())],
    );
    assert_eq!(
        result.unwrap_err(),
        DomainError::Git("working_dir does not exist or is not a directory: /nowhere".to_string())
    );
    let result = play(
        |r| branch_delete("/repo", "a", Some("/nowhere"), r, 0),
        vec![("is-dir /nowhere", no())],
    );
    assert_eq!(
        result.unwrap_err().to_string(),
        "git error: working_dir does not exist or is not a directory: /nowhere"
    );
}

#[test]
fn test_branch_delete_with_working_dir_succeeds() {
    let fail = play(
        |r| branch_delete("/repo", "task/subtask-bd", None, r, 0),
        vec![(
            "git -C /repo branch -d task/subtask-bd",
            bad(1, "error: the branch 'task/subtask-bd' is not fully merged\n"),
        )],
    );
    assert!(
        fail.is_err(),
        "branch_delete at repo root should fail because HEAD=main has no subtask commits"
    );
    let topic = "/repo/.worktrees/topic-bd";
    let listing = "worktree /repo\nHEAD 1111\nbranch refs/heads/main\n\nworktree /repo/.worktrees/topic-bd\nHEAD 2222\nbranch refs/heads/topic/bd\n\n";
    let ok_result = play(
        |r| branch_delete("/repo", "task/subtask-bd", Some(topic), r, 0),
        vec![
            ("is-dir /repo/.worktrees/topic-bd", yes()),
            ("resolve /repo/.worktrees/topic-bd", at("/private/repo/.worktrees/topic-bd")),
            ("resolve /repo", at("/private/repo")),
            ("git -C /repo worktree list --porcelain", ok(listing)),
            ("resolve /repo", at("/private/repo")),
            ("resolve /repo/.worktrees/topic-bd", at("/private/repo/.worktrees/topic-bd")),
            (
                "git -C /repo/.worktrees/topic-bd branch -d task/subtask-bd",
                ok("Deleted branch task/subtask-bd (was 3333).\n"),
            ),
        ],
    );
    assert!(
        ok_result.is_ok(),
        "branch_delete with topic working_dir should succeed: {:?}",
        ok_result
    );
}

#[test]
fn test_branch_delete_with_working_dir_not_merged_errors() {
    let topic = "/repo/.worktrees/topic-bu";
    let listing = "worktree /repo\nHEAD 1111\nbranch refs/heads/main\n\n\
                   worktree /repo/.worktrees/topic-bu\nHEAD 2222\nbranch refs/heads/topic/bu\n\n";
    let result = play(
        |r| branch_delete("/repo", "task/subtask-bu", Some(topic), r, 0),
        vec![
            ("is-dir /repo/.worktrees/topic-bu", yes()),
            ("resolve /repo/.worktrees/topic-bu", at("/repo/.worktrees/topic-bu")),
            ("resolve /repo", at("/repo")),
            ("git -C /repo worktree list --porcelain", ok(listing)),
            ("resolve /repo", at("/repo")),
            ("resolve /repo/.worktrees/topic-bu", at("/repo/.worktrees/topic-bu")),
            (
                "git -C /repo/.worktrees/topic-bu branch -d task/subtask-bu",
                bad(1, "error: the branch 'task/subtask-bu' is not fully merged\n"),
            ),
        ],
    );
    assert!(
        result.is_err(),
        "branch_delete of not-fully-merged branch should fail"
    );
}

#[test]
fn test_branch_delete_without_working_dir_uses_repo_root() {
    let result = play(
        |r| branch_delete("/repo", "feat/compat-bd", None, r, 0),
        vec![("git -C /repo branch -d feat/compat-bd", ok("Deleted branch"))],
    );
    assert!(
        result.is_ok(),
        "branch_delete without working_dir should work on repo root: {:?}",
        result
    );
}

#[test]
fn test_branch_delete_rejects_unknown_working_dir() {
    let result = play(
        |r| branch_delete("/repo", "feat/reject-wd", Some("/foreign"), r, 0),
        vec![
            ("is-dir /foreign", yes()),
            ("resolve /foreign", at("/foreign")),
            ("resolve /repo", at("/repo")),
            ("git -C /repo worktree list --porcelain", ok(PORCELAIN)),
            ("resolve /repo", at("/repo")),
            (
                "resolve /repo/.worktrees/topic-dirty",
                Reply::Failed("No such file or directory (os error 2)".to_string()),
            ),
        ],
    );
    assert!(
        result.is_err(),
        "branch_delete should reject working_dir that is not a known worktree"
    );
    let msg = format!("{:?}", result.unwrap_err());
    assert!(
        msg.contains("neither repo root nor a known worktree"),
        "error should indicate unknown worktree: {msg}"
    );
    let there = play(
        |r| branch_exists("/repo", "feat/reject-wd", r, 0),
        vec![("git -C /repo show-ref --verify --quiet refs/heads/feat/reject-wd", ok(""))],
    );
    assert!(there.unwrap(), "branch should not have been deleted");
}

#[test]
fn what_cannot_be_resolved_is_refused() {
    let result = play(
        |r| branch_delete("/repo", "b", Some("/w"), r, 0),
        vec![
            ("is-dir /w", yes()),
            ("resolve /w", Reply::Failed("denied".to_string())),
        ],
    );
    assert_eq!(
        result.unwrap_err(),
        DomainError::Git("failed to canonicalize working_dir /w: denied".to_string())
    );
    let result = play(
        |r| branch_delete("/repo", "b", Some("/w"), r, 0),
        vec![
            ("is-dir /w", yes()),
            ("resolve /w", at("/w")),
            ("resolve /repo", Reply::Failed("denied".to_string())),
        ],
    );
    assert_eq!(
        result.unwrap_err(),
        DomainError::Git("failed to canonicalize repo /repo: denied".to_string())
    );
}

#[test]
fn a_branch_that_is_not_there_is_told_apart() {
    let result = play(
        |r| branch_delete("/repo", "gone", None, r, 0),
        vec![("git -C /repo branch -d gone", bad(1, "error: branch 'gone' not found\n"))],
    );
    assert_eq!(
        result.unwrap_err(),
        DomainError::BranchNotFound("gone".to_string())
    );
}

// ---------------------------------------------------------------------------
// Inspecting
// ---------------------------------------------------------------------------

#[test]
fn test_branch_status_same_branch_is_up_to_date() {
    let result = play(
        |r| branch_status("/repo", "main", "main", r, 0),
        vec![
            ("git -C /repo rev-list --left-right --count main...main", ok("0\t0\n")),
            ("git -C /repo merge-base main main", ok("1111\n")),
            ("git -C /repo log --format=%H%x09%s main..main", ok("")),
            ("git -C /repo log --format=%H%x09%s main..main", ok("")),
        ],
    )
    .expect("branch_status");
    assert_eq!(result.ahead, 0, "same ref: ahead must be 0");
    assert_eq!(result.behind, 0, "same ref: behind must be 0");
    assert!(result.up_to_date, "same ref: up_to_date must be true");
    assert!(result.ahead_commits.is_empty());
    assert!(result.behind_commits.is_empty());
    assert_eq!(result.common_ancestor, "1111");
}

#[test]
fn test_branch_status_branch_ahead_of_base() {
    let result = play(
        |r| branch_status("/repo", "main", "base-ref", r, 0),
        vec![
            ("git -C /repo rev-list --left-right --count base-ref...main", ok("0\t1\n")),
            ("git -C /repo merge-base base-ref main", ok("1111\n")),
            ("git -C /repo log --format=%H%x09%s base-ref..main", ok("2222\textra commit\n")),
            ("git -C /repo log --format=%H%x09%s main..base-ref", ok("")),
        ],
    )
    .expect("branch_status ahead");
    assert_eq!(result.ahead, 1, "main should be 1 commit ahead of base-ref");
    assert_eq!(result.behind, 0, "main should be 0 commits behind base-ref");
    assert!(!result.up_to_date);
    assert_eq!(result.ahead_commits.len(), 1);
    assert!(result.behind_commits.is_empty());
    assert_eq!(result.ahead_commits[0].hash, "2222");
    assert_eq!(result.ahead_commits[0].message, "extra commit");
}

#[test]
fn test_branch_status_branch_behind_base() {
    let result = play(
        |r| branch_status("/repo", "topic", "main", r, 0),
        vec![
            ("git -C /repo rev-list --left-right --count main...topic", ok("1\t0\n")),
            ("git -C /repo merge-base main topic", ok("1111\n")),
            ("git -C /repo log --format=%H%x09%s main..topic", ok("")),
            ("git -C /repo log --format=%H%x09%s topic..main", ok("2222\tmain extra\n")),
        ],
    )
    .expect("branch_status behind");
    assert_eq!(result.behind, 1, "topic should be 1 commit behind main");
    assert_eq!(result.ahead, 0, "topic should be 0 commits ahead of main");
    assert!(!result.up_to_date);
    assert!(result.ahead_commits.is_empty());
    assert_eq!(result.behind_commits.len(), 1);
}

#[test]
fn counts_that_are_none_are_refused() {
    assert_eq!(parse_counts("3\t12"), Some((3, 12)));
    assert_eq!(parse_counts(" 3 \t 12 "), Some((3, 12)));
    assert_eq!(parse_counts("+3\t4294967295"), Some((3, 4294967295)));
    for raw in &["", "3", "3 12", "3\t", "\t3", "a\t3", "3\t4294967296", "-1\t0", "1\t2\t3"] {
        assert_eq!(parse_counts(raw), None, "{raw:?}");
    }
    let result = play(
        |r| branch_status("/repo", "b", "a", r, 0),
        vec![("git -C /repo rev-list --left-right --count a...b", ok("nonsense"))],
    );
    assert_eq!(
        result.unwrap_err(),
        DomainError::Git("unexpected rev-list output: nonsense".to_string())
    );
}

#[test]
fn commits_that_are_not_pushed() {
    let result = play(
        |r| unpushed_commits("/repo", "main", "origin", r, 0),
        vec![
            ("git -C /repo rev-parse origin/main", ok("1111\n")),
            (
                "git -C /repo log --format=%H%x09%s origin/main..main",
                ok("3333\tthird\tcommit\n2222\tsecond\n"),
            ),
        ],
    )
    .expect("unpushed");
    assert_eq!(result.count, 2);
    assert_eq!(result.remote_head, "1111");
    assert_eq!(result.commits[0].message, "third\tcommit");
    assert_eq!(result.commits[1].hash, "2222");
}

#[test]
fn test_is_pushed_true_for_remote_commit() {
    let result = play(
        |r| is_pushed("/local", "1111", "origin", r, 0),
        vec![(
            "git -C /local for-each-ref --contains 1111 --format=%(refname) refs/remotes/origin/",
            ok("refs/remotes/origin/main\n"),
        )],
    )
    .expect("is_pushed");
    assert!(result.pushed, "HEAD pushed to origin: pushed must be true");
    assert!(!result.refs.is_empty(), "refs must contain origin/main ref");
    assert_eq!(result.refs, vec!["refs/remotes/origin/main".to_string()]);
}

#[test]
fn test_is_pushed_false_for_local_only_commit() {
    let result = play(
        |r| is_pushed("/local", "2222", "origin", r, 0),
        vec![(
            "git -C /local for-each-ref --contains 2222 --format=%(refname) refs/remotes/origin/",
            ok(""),
        )],
    )
    .expect("is_pushed");
    assert!(!result.pushed, "local-only commit: pushed must be false");
    assert!(
        result.refs.is_empty(),
        "refs must be empty for local-only commit"
    );
}

#[test]
fn test_tag_pushed_true_when_tag_is_on_remote() {
    let result = play(
        |r| tag_pushed("/local", "v1.0.0", "/bare", r, 0),
        vec![(
            "git -C /local ls-remote --tags /bare refs/tags/v1.0.0",
            ok("1111\trefs/tags/v1.0.0\n"),
        )],
    )
    .expect("tag_pushed");
    assert!(result.pushed, "pushed tag should return pushed=true");
    assert!(
        !result.remote_refs.is_empty(),
        "remote_refs must contain the tag ref"
    );
    assert!(
        result.remote_refs.iter().any(|r| r == "refs/tags/v1.0.0"),
        "remote_refs should contain refs/tags/v1.0.0, got: {:?}",
        result.remote_refs
    );
}

#[test]
fn test_tag_pushed_false_when_tag_not_on_remote() {
    let result = play(
        |r| tag_pushed("/local", "v9.9.9", "/bare", r, 0),
        vec![("git -C /local ls-remote --tags /bare refs/tags/v9.9.9", ok(""))],
    )
    .expect("tag_pushed absent");
    assert!(!result.pushed, "absent tag should return pushed=false");
    assert!(
        result.remote_refs.is_empty(),
        "remote_refs must be empty for absent tag"
    );
}

#[test]
fn test_tag_pushed_false_when_tag_local_only() {
    let result = play(
        |r| tag_pushed("/local", "v2.0.0", "/bare", r, 0),
        vec![("git -C /local ls-remote --tags /bare refs/tags/v2.0.0", ok("\n"))],
    )
    .expect("tag_pushed local-only");
    assert!(!result.pushed, "local-only tag should return pushed=false");
    assert!(
        result.remote_refs.is_empty(),
        "remote_refs must be empty for local-only tag"
    );
    // A line without a ref tells of none; what is behind the ref is left out.
    assert_eq!(parse_refs("1111\n2222\tb\tc\n"), vec!["b".to_string()]);
}

#[test]
fn test_reset_target_linear_history_n1() {
    let hash_a = "1111";
    let result = play(
        |r| reset_target("/repo", 1, "HEAD", r, 0),
        vec![(
            "git -C /repo log --first-parent --format=%H%x09%P%x09%s -n 2 HEAD",
            ok("2222\t1111\tcommit B\n1111\t\tinitial\n"),
        )],
    )
    .expect("reset_target n=1");
    assert_eq!(
        result.target_hash, hash_a,
        "target_hash should be initial commit"
    );
    assert!(result.linear, "linear history: linear must be true");
    assert!(
        !result.target_subject.is_empty(),
        "target_subject must not be empty"
    );
    assert_eq!(result.target_subject, "initial");
}

#[test]
fn test_reset_target_history_too_shallow() {
    let result = play(
        |r| reset_target("/repo", 2, "HEAD", r, 0),
        vec![(
            "git -C /repo log --first-parent --format=%H%x09%P%x09%s -n 3 HEAD",
            ok("1111\t\tinitial\n"),
        )],
    );
    assert!(result.is_err(), "should fail when N exceeds history depth");
    let msg = format!("{:?}", result.unwrap_err());
    assert!(
        msg.contains("history too shallow"),
        "error should mention 'history too shallow': {msg}"
    );
    assert!(msg.contains("requested 2 steps, only 0 commits reachable"));
    let none: Vec<String> = Vec::new();
    assert_eq!(
        target_of(&none, 0).unwrap_err().to_string(),
        "git error: history too shallow: requested 0 steps, only 0 commits reachable"
    );
}

#[test]
fn test_reset_target_merge_commit_yields_linear_false() {
    let result = play(
        |r| reset_target("/repo", 1, "HEAD", r, 0),
        vec![(
            "git -C /repo log --first-parent --format=%H%x09%P%x09%s -n 2 HEAD",
            ok("4444\t3333 2222\tmerge topic-rt\n3333\t1111\tmain extra\n"),
        )],
    )
    .expect("reset_target merge");
    assert!(!result.linear, "merge commit in path: linear must be false");
    assert_eq!(result.target_hash, "3333");
    assert_eq!(result.target_subject, "main extra");
}

#[test]
fn lines_of_a_walk_without_tabs() {
    let lines = vec!["1111".to_string(), "2222\t1111".to_string(), "3333\t\ta\tb".to_string()];
    let first = target_of(&lines, 0).unwrap();
    assert_eq!((first.target_hash.as_str(), first.target_subject.as_str()), ("1111", ""));
    let second = target_of(&lines, 1).unwrap();
    assert_eq!((second.target_hash.as_str(), second.target_subject.as_str()), ("2222", ""));
    let third = target_of(&lines, 2).unwrap();
    assert_eq!((third.target_hash.as_str(), third.target_subject.as_str()), ("3333", "a\tb"));
    assert!(third.linear);
}

#[test]
fn test_worktree_state_no_upstream() {
    let result = play(
        |r| worktree_state("/repo", None, r, 0),
        vec![
            ("git -C /repo branch --show-current", ok("main\n")),
            (
                "git -C /repo rev-parse --abbrev-ref @{upstream}",
                bad(128, "fatal: no upstream configured for branch 'main'\n"),
            ),
            ("git -C /repo status --porcelain", ok("")),
        ],
    )
    .expect("worktree_state no upstream");
    assert_eq!(result.tracking, None, "no upstream: tracking must be None");
    assert_eq!(result.ahead, 0, "no upstream: ahead must be 0");
    assert_eq!(result.behind, 0, "no upstream: behind must be 0");
    assert!(result.clean, "fresh repo: clean must be true");
    assert_eq!(result.uncommitted, 0);
}

#[test]
fn test_worktree_state_dirty() {
    let result = play(
        |r| worktree_state("/repo", None, r, 0),
        vec![
            ("git -C /repo branch --show-current", ok("main\n")),
            ("git -C /repo rev-parse --abbrev-ref @{upstream}", ok("\n")),
            ("git -C /repo status --porcelain", ok("?? dirty.txt\n")),
        ],
    )
    .expect("worktree_state dirty");
    assert!(!result.clean, "dirty repo: clean must be false");
    assert!(result.uncommitted > 0, "uncommitted must be > 0");
    assert_eq!(result.tracking, None);
}

#[test]
fn test_worktree_state_with_upstream() {
    let result = play(
        |r| worktree_state("/local", None, r, 0),
        vec![
            ("git -C /local branch --show-current", ok("main\n")),
            ("git -C /local rev-parse --abbrev-ref @{upstream}", ok("origin/main\n")),
            ("git -C /local rev-list --left-right --count origin/main...main", ok("0\t1\n")),
            ("git -C /local merge-base origin/main main", ok("1111\n")),
            ("git -C /local log --format=%H%x09%s origin/main..main", ok("2222\textra commit")),
            ("git -C /local log --format=%H%x09%s main..origin/main", ok("")),
            ("git -C /local status --porcelain", ok("")),
        ],
    )
    .expect("worktree_state with upstream");
    assert_eq!(
        result.tracking,
        Some("origin/main".to_string()),
        "tracking must be origin/main"
    );
    assert_eq!(result.ahead, 1, "ahead must be 1 after local commit");
    assert_eq!(result.behind, 0, "behind must be 0");
    assert!(result.clean, "no uncommitted changes: clean must be true");
}

#[test]
fn other_failures_of_the_upstream_are_failures() {
    let result = play(
        |r| worktree_state("/repo", Some("main"), r, 0),
        vec![(
            "git -C /repo rev-parse --abbrev-ref @{upstream}",
            bad(129, "  usage\n"),
        )],
    );
    assert_eq!(result.unwrap_err(), DomainError::Git("usage".to_string()));
    let killed = Reply::Output(CommandOutput {
        code: None,
        stdout: String::new(),
        stderr: "killed".to_string(),
    });
    let result = play(
        |r| worktree_state("/repo", Some("main"), r, 0),
        vec![("git -C /repo rev-parse --abbrev-ref @{upstream}", killed)],
    );
    assert_eq!(result.unwrap_err(), DomainError::Git("killed".to_string()));
}

// ---------------------------------------------------------------------------
// Working directories
// ---------------------------------------------------------------------------

#[test]
fn the_status_of_a_directory() {
    let result = play(
        |r| status("/w", r, 0),
        vec![
            ("git -C /w branch --show-current", ok("main\n")),
            ("git -C /w status --short", ok(" M a.txt\r\n\n?? b.txt\n")),
        ],
    )
    .expect("status");
    assert_eq!(result.branch, "main");
    assert!(!result.clean);
    // The white space around what git prints is dropped, that of the first line too.
    assert_eq!(result.changed_files, vec!["M a.txt".to_string(), "?? b.txt".to_string()]);
}

#[test]
fn git_that_cannot_be_run() {
    let result = play(
        |r| status("/w", r, 0),
        vec![("git -C /w branch --show-current", Reply::Failed("not found".to_string()))],
    );
    assert_eq!(result.unwrap_err(), DomainError::Io("not found".to_string()));
}

#[test]
fn the_arguments_of_a_comparison() {
    let plain = DiffOptions::default();
    let result = play(
        |r| diff("/w", &plain, r, 0),
        vec![
            ("git -C /w diff --stat", ok(" a | 1 +\n 1 file changed\n")),
            ("git -C /w diff", ok("+x\n")),
        ],
    )
    .expect("diff");
    assert_eq!(result.stat, "a | 1 +\n 1 file changed");
    assert_eq!(result.diff, "+x");
    let staged = DiffOptions {
        staged: true,
        commit_range: None,
        paths: Some(vec!["a".to_string(), "b c".to_string()]),
        name_only: false,
    };
    play(
        |r| diff("/w", &staged, r, 0),
        vec![
            ("git -C /w diff --stat --cached -- a b c", ok("")),
            ("git -C /w diff --cached -- a b c", ok("")),
        ],
    )
    .expect("staged");
    let names = DiffOptions {
        staged: true,
        commit_range: Some("a..b".to_string()),
        paths: Some(Vec::new()),
        name_only: true,
    };
    let result = play(
        |r| diff("/w", &names, r, 0),
        vec![("git -C /w diff --name-only a..b --", ok("x\ny\n"))],
    )
    .expect("names");
    assert_eq!((result.stat.as_str(), result.diff.as_str()), ("", "x\ny"));
}

#[test]
fn the_last_commits() {
    let result = play(
        |r| log("/w", Some("a..b"), 0, r, 0),
        vec![("git -C /w log --oneline -0 a..b", ok("1111 first one\n\n2222\n"))],
    )
    .expect("log");
    assert_eq!(result.len(), 2);
    assert_eq!((result[0].hash.as_str(), result[0].message.as_str()), ("1111", "first one"));
    assert_eq!((result[1].hash.as_str(), result[1].message.as_str()), ("2222", ""));
    assert_eq!(parse_entries("a\tb\tc", '\t')[0].message, "b\tc");
}

#[test]
fn committing_everything_and_chosen_paths() {
    let result = play(
        |r| commit("/w", "a message", None, r, 0),
        vec![
            ("git -C /w add -A", ok("")),
            (
                "git -C /w diff --cached --stat",
                ok(" a | 1 +\n b | 2 ++\n 2 files changed, 3 insertions(+)\n"),
            ),
            ("git -C /w commit -m a message", ok("[main 1111] a message")),
            ("git -C /w rev-parse --short HEAD", ok("1111\n")),
        ],
    )
    .expect("commit");
    assert_eq!(result.hash, "1111");
    assert_eq!(result.message, "a message");
    assert_eq!(result.files_changed, 2);
    let paths = vec!["a".to_string(), "dir/b".to_string()];
    play(
        |r| commit("/w", "m", Some(&paths), r, 0),
        vec![
            ("git -C /w add -- a dir/b", ok("")),
            ("git -C /w diff --cached --stat", ok(" a | 1 +\n 1 file changed\n")),
            ("git -C /w commit -m m", ok("")),
            ("git -C /w rev-parse --short HEAD", ok("2222\n")),
        ],
    )
    .expect("commit of paths");
    let none: Vec<String> = Vec::new();
    let nothing = play(
        |r| commit("/w", "m", Some(&none), r, 0),
        vec![
            ("git -C /w add -A", ok("")),
            ("git -C /w diff --cached --stat", ok("\n")),
        ],
    );
    assert_eq!(
        nothing.unwrap_err(),
        DomainError::Git("nothing to commit".to_string())
    );
    let dashed = vec!["a".to_string(), "-f".to_string(), "--all".to_string()];
    assert_eq!(
        play(|r| commit("/w", "m", Some(&dashed), r, 0), vec![]).unwrap_err(),
        DomainError::Git("invalid path (starts with '-'): -f".to_string())
    );
}

#[test]
fn resetting_softly_and_never_hard() {
    let result = play(
        |r| reset("/w", "soft", "HEAD~2", r, 0),
        vec![
            ("git -C /w rev-parse --short HEAD", ok("3333\n")),
            ("git -C /w reset --soft HEAD~2", ok("")),
            ("git -C /w rev-parse --short HEAD", ok("1111\n")),
        ],
    )
    .expect("reset");
    assert_eq!(
        (result.previous_head.as_str(), result.new_head.as_str(), result.mode.as_str()),
        ("3333", "1111", "soft")
    );
    for mode in &["hard", "keep", "merge", "", "Soft", "soft "] {
        assert_eq!(
            play(|r| reset("/w", mode, "HEAD", r, 0), vec![]).unwrap_err(),
            DomainError::Git(format!(
                "unsupported reset mode: {mode}. Only 'soft' and 'mixed' are allowed"
            ))
        );
    }
}

// ---------------------------------------------------------------------------
// Remotes
// ---------------------------------------------------------------------------

#[test]
fn fetching() {
    let text = play(
        |r| fetch("/repo", None, None, false, r, 0),
        vec![("git -C /repo fetch origin", ok(" done \n"))],
    );
    assert_eq!(text.unwrap(), "done");
    play(
        |r| fetch("/repo", Some("upstream"), Some("+refs/heads/*:refs/x/*"), true, r, 0),
        vec![("git -C /repo fetch --prune upstream +refs/heads/*:refs/x/*", ok(""))],
    )
    .expect("fetch");
    assert_eq!(
        play(|r| fetch("/repo", Some("a b"), Some("c d"), false, r, 0), vec![]).unwrap_err(),
        DomainError::Git("invalid remote name: a b".to_string())
    );
    assert_eq!(
        play(|r| fetch("/repo", None, Some("c d"), false, r, 0), vec![]).unwrap_err(),
        DomainError::Git("invalid refspec: c d".to_string())
    );
}

#[test]
fn the_longest_walk_is_too_long() {
    let result = play(
        |r| reset_target("/repo", u32::MAX, "HEAD", r, 0),
        vec![(
            "git -C /repo log --first-parent --format=%H%x09%P%x09%s -n 4294967296 HEAD",
            ok("aaa\tbbb\tsecond\nbbb\t\tfirst\n"),
        )],
    );
    assert_eq!(
        result.unwrap_err(),
        DomainError::Git(
            "history too shallow: requested 4294967295 steps, only 1 commits reachable".to_string()
        )
    );
}

#[test]
fn listing_remotes() {
    let all = play(
        |r| remote_list("/repo", r, 0),
        vec![(
            "git -C /repo remote -v",
            ok("origin\thttps://example.com/r.git (fetch)\norigin\t/a dir/r (push)\n"),
        )],
    )
    .expect("remotes");
    assert_eq!(all.len(), 2);
    assert_eq!(all[0].name, "origin");
    assert_eq!(all[0].url, "https://example.com/r.git");
    assert_eq!(all[0].direction, "fetch");
    assert_eq!(all[1].url, "/a dir/r");
    assert_eq!(all[1].direction, "push");
    assert!(parse_remotes("").is_empty());
    assert!(parse_remotes("origin url (fetch)\norigin\turl\norigin\turl ()\n").is_empty());
    assert!(parse_remotes("a\tb ((fetch))\na\tb fetch\na\tb (x)\n").is_empty());
    let partial = parse_remotes("o\thttps://x (fetch) [blob:none]\no\thttps://x (push)\n");
    assert_eq!(partial.len(), 1);
    assert_eq!(partial[0].url, "https://x");
    assert_eq!(partial[0].direction, "push");
}

#[test]
fn replies_of_the_wrong_kind_are_noticed() {
    let wrong = vec![Reply::Flag(true)];
    assert!(matches!(status("/w", &wrong, 0), Err(Halt::Mismatch)));
    let wrong = vec![ok("")];
    assert!(matches!(worktree_remove("/w", "a", &wrong, 0), Err(Halt::Mismatch)));
}

#[test]
fn later_replies_do_not_matter() {
    let replies = vec![ok("main"), ok(""), ok("other"), yes()];
    let (result, end) = status("/w", &replies, 0).expect("status");
    assert_eq!((result.branch.as_str(), end), ("main", 2));
    let (result, end) = status("/w", &replies, 1).expect("status");
    assert_eq!((result.branch.as_str(), end), ("", 3));
}

#[test]
fn swapping_branch_and_base_swaps_the_sides() {
    let there = play(
        |r| branch_status("/w", "a", "b", r, 0),
        vec![
            ("git -C /w rev-list --left-right --count b...a", ok("1\t2\n")),
            ("git -C /w merge-base b a", ok("f00\n")),
            ("git -C /w log --format=%H%x09%s b..a", ok("a2\tsecond\na1\tfirst\n")),
            ("git -C /w log --format=%H%x09%s a..b", ok("b1\tother\n")),
        ],
    )
    .expect("status");
    let back = play(
        |r| branch_status("/w", "b", "a", r, 0),
        vec![
            ("git -C /w rev-list --left-right --count a...b", ok("2\t1\n")),
            ("git -C /w merge-base a b", ok("f00\n")),
            ("git -C /w log --format=%H%x09%s a..b", ok("b1\tother\n")),
            ("git -C /w log --format=%H%x09%s b..a", ok("a2\tsecond\na1\tfirst\n")),
        ],
    )
    .expect("status");
    assert_eq!((there.ahead, there.behind), (2, 1));
    assert_eq!((back.ahead, back.behind), (1, 2));
    assert_eq!(there.ahead_commits.len(), there.ahead as usize);
    assert_eq!(there.behind_commits.len(), there.behind as usize);
    assert_eq!(there.ahead_commits[1].hash, back.behind_commits[1].hash);
    assert_eq!(there.behind_commits[0].message, back.ahead_commits[0].message);
    assert_eq!(there.common_ancestor, back.common_ancestor);
}

#[test]
fn unpushed_commits_are_those_ahead_of_the_remote() {
    let log = "a2\tsecond\na1\tfirst\n";
    let unpushed = play(
        |r| unpushed_commits("/w", "main", "origin", r, 0),
        vec![
            ("git -C /w rev-parse origin/main", ok("b1\n")),
            ("git -C /w log --format=%H%x09%s origin/main..main", ok(log)),
        ],
    )
    .expect("unpushed");
    let status = play(
        |r| branch_status("/w", "main", "origin/main", r, 0),
        vec![
            ("git -C /w rev-list --left-right --count origin/main...main", ok("0\t2\n")),
            ("git -C /w merge-base origin/main main", ok("b1\n")),
            ("git -C /w log --format=%H%x09%s origin/main..main", ok(log)),
            ("git -C /w log --format=%H%x09%s main..origin/main", ok("")),
        ],
    )
    .expect("status");
    assert_eq!(unpushed.count, status.ahead);
    let hashes: Vec<&str> = unpushed.commits.iter().map(|c| c.hash.as_str()).collect();
    assert_eq!(hashes, ["a2", "a1"]);
    assert_eq!(status.ahead_commits[0].hash, "a2");
    assert_eq!(status.ahead_commits[1].hash, "a1");
}

#[test]
fn walks_compose() {
    let walk = |steps: u32, from: &str, command: &str, lines: &str| {
        play(|r| reset_target("/w", steps, from, r, 0), vec![(command, ok(lines))]).expect("walk")
    };
    let log = "git -C /w log --first-parent --format=%H%x09%P%x09%s -n";
    let first = walk(1, "HEAD", &format!("{log} 2 HEAD"), "c\tb\tthird\nb\ta x\tmerge\n");
    let second = walk(1, "b", &format!("{log} 2 b"), "b\ta x\tmerge\na\t\tfirst\n");
    let both =
        walk(2, "HEAD", &format!("{log} 3 HEAD"), "c\tb\tthird\nb\ta x\tmerge\na\t\tfirst\n");
    assert_eq!(first.target_hash, "b");
    assert_eq!(both.target_hash, second.target_hash);
    assert_eq!(both.target_subject, second.target_subject);
    assert_eq!(both.linear, first.linear && second.linear);
    let none = walk(0, "HEAD", &format!("{log} 1 HEAD"), "c\tb\tthird\n");
    assert_eq!((none.target_hash.as_str(), none.linear), ("c", true));
}

#[test]
fn a_soft_reset_to_the_head_before_undoes_a_reset() {
    let reset_to = |mode: &str, target: &str, script: Vec<(&str, Reply)>| {
        play(|r| reset("/w", mode, target, r, 0), script).expect("reset")
    };
    let done = reset_to(
        "mixed",
        "HEAD~1",
        vec![
            ("git -C /w rev-parse --short HEAD", ok("2222\n")),
            ("git -C /w reset --mixed HEAD~1", ok("")),
            ("git -C /w rev-parse --short HEAD", ok("1111\n")),
        ],
    );
    let undone = reset_to(
        "soft",
        &done.previous_head,
        vec![
            ("git -C /w rev-parse --short HEAD", ok("1111\n")),
            ("git -C /w reset --soft 2222", ok("")),
            ("git -C /w rev-parse --short HEAD", ok("2222\n")),
        ],
    );
    assert_eq!(undone.previous_head, done.new_head);
    assert_eq!(undone.new_head, done.previous_head);
}

#[test]
fn a_removed_worktree_is_not_found_again() {
    play(
        |r| worktree_remove("/repo", "a", r, 0),
        vec![
            ("exists /repo/.worktrees/a", yes()),
            ("git -C /repo worktree remove --force /repo/.worktrees/a", ok("")),
        ],
    )
    .expect("removed");
    assert_eq!(
        play(
            |r| worktree_remove("/repo", "a", r, 0),
            vec![("exists /repo/.worktrees/a", no())],
        )
        .unwrap_err(),
        DomainError::WorktreeNotFound("a".to_string())
    );
}
