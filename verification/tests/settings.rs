//! The settings of the log, the texts of errors, and the decoding of output.

use git_workflow_mcp::domain::error::DomainError;
use git_workflow_mcp::infra::observability::{
    panic_entry, panic_log_path, resolve_log_dir, resolve_log_level, timestamp_now, ENV_LOG_DIR,
    ENV_LOG_LEVEL,
};
use git_workflow_mcp::interface::mcp::mode::{panic_error, Shutdown, ToolError};
use git_workflow_mcp::protocol::{Action, CommandOutput, Flow, Halt, Reply};

/// Drives an operation in an environment with these variables.
fn within<T>(
    op: impl Fn(&[Reply]) -> Flow<T, DomainError>,
    variables: &[(&str, &str)],
) -> (T, Vec<String>) {
    let mut replies: Vec<Reply> = Vec::new();
    let mut read: Vec<String> = Vec::new();
    loop {
        match op(&replies) {
            Ok((value, _)) => return (value, read),
            Err(Halt::Ask(Action::ReadVariable { name })) => {
                let value = variables
                    .iter()
                    .find(|(n, _)| *n == name)
                    .map(|(_, v)| v.to_string());
                read.push(name);
                replies.push(Reply::Variable(value));
            }
            Err(other) => panic!("unexpected: {other:?}"),
        }
    }
}

#[test]
fn resolve_log_level_prefers_cli() {
    let (got, read) = within(
        |r| resolve_log_level(Some("info"), r, 0),
        &[(ENV_LOG_LEVEL, "debug")],
    );
    assert_eq!(got, "info");
    assert!(read.is_empty());
}

#[test]
fn resolve_log_level_uses_default_when_all_empty() {
    let (got, read) = within(|r| resolve_log_level(None, r, 0), &[]);
    assert_eq!(got, "warn");
    assert_eq!(read, vec!["GIT_WORKFLOW_LOG_LEVEL".to_string(), "RUST_LOG".to_string()]);
    let (got, _) = within(
        |r| resolve_log_level(Some(""), r, 0),
        &[(ENV_LOG_LEVEL, ""), ("RUST_LOG", "")],
    );
    assert_eq!(got, "warn");
}

#[test]
fn the_level_goes_by_priority() {
    let (got, _) = within(
        |r| resolve_log_level(Some(""), r, 0),
        &[(ENV_LOG_LEVEL, "debug"), ("RUST_LOG", "trace")],
    );
    assert_eq!(got, "debug");
    let (got, _) = within(
        |r| resolve_log_level(None, r, 0),
        &[(ENV_LOG_LEVEL, ""), ("RUST_LOG", "trace")],
    );
    assert_eq!(got, "trace");
}

#[test]
fn resolve_log_dir_uses_env() {
    let (got, read) = within(
        |r| resolve_log_dir(r, 0),
        &[(ENV_LOG_DIR, "/tmp/gwm-test-resolve"), ("HOME", "/home/me")],
    );
    assert_eq!(got, "/tmp/gwm-test-resolve");
    assert_eq!(read, vec!["GIT_WORKFLOW_LOG_DIR".to_string()]);
}

#[test]
fn the_directory_goes_by_priority() {
    let (got, _) = within(|r| resolve_log_dir(r, 0), &[(ENV_LOG_DIR, ""), ("HOME", "/home/me")]);
    assert_eq!(got, "/home/me/.cache/git-workflow-mcp");
    let (got, _) = within(|r| resolve_log_dir(r, 0), &[("HOME", "")]);
    assert_eq!(got, ".");
}

#[test]
fn what_is_written_of_a_panic() {
    assert_eq!(panic_log_path("/var/log"), "/var/log/panic.log");
    assert_eq!(timestamp_now(Some(12)), "epoch_s=12");
    assert_eq!(timestamp_now(None), "");
    assert_eq!(
        panic_entry(Some(12), "panicked at x", "0: main"),
        "[epoch_s=12] panic: panicked at x\n0: main\n"
    );
    assert_eq!(
        panic_error("log", Some("boom")),
        ToolError::Internal("tool 'log' panicked: boom".to_string())
    );
    assert_eq!(
        panic_error("log", None),
        ToolError::Internal("tool 'log' panicked: <non-string panic payload>".to_string())
    );
}

#[test]
fn why_the_server_shuts_down() {
    assert_eq!(Shutdown::Service(None).reason(), ("stdin_eof", None));
    assert_eq!(
        Shutdown::Service(Some("broken".to_string())).reason(),
        ("service_error", Some("broken".to_string()))
    );
    assert_eq!(Shutdown::CtrlC.reason(), ("ctrl_c", None));
    assert_eq!(Shutdown::Sigterm.reason(), ("sigterm", None));
    assert_eq!(Shutdown::Sigpipe.reason(), ("sigpipe", None));
}

#[test]
fn the_messages_of_errors() {
    let s = |text: &str| text.to_string();
    assert_eq!(
        DomainError::SessionMismatch { worktree: s("a"), owner: s("b"), caller: s("c") }
            .to_string(),
        "session mismatch: worktree 'a' belongs to session 'b', not 'c'"
    );
    assert_eq!(DomainError::WorktreeNotFound(s("a")).to_string(), "worktree not found: a");
    assert_eq!(
        DomainError::WorktreeAlreadyExists(s("a")).to_string(),
        "worktree already exists: a"
    );
    assert_eq!(DomainError::BranchNotFound(s("a")).to_string(), "branch not found: a");
    assert_eq!(DomainError::Git(s("a")).to_string(), "git error: a");
    assert_eq!(DomainError::Io(s("a")).to_string(), "io error: a");
    assert_eq!(DomainError::Lock(s("a")).to_string(), "file lock error: a");
}

#[test]
fn output_is_decoded_with_replacements() {
    let output = CommandOutput::decode(Some(3), &[0x68, 0xc3, 0xa9, 0x0a], &[0x61, 0xff, 0x62]);
    assert_eq!(output.code, Some(3));
    assert_eq!(output.stdout, "h\u{e9}\n");
    assert_eq!(output.stderr, "a\u{fffd}b");
    let output = CommandOutput::decode(None, &[], &[0xe2, 0x82]);
    assert_eq!(output.stdout, "");
    assert_eq!(output.stderr, "\u{fffd}");
}
