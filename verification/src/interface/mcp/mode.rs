//! Which tools a mode exposes, and what the server says of itself.

use vstd::prelude::*;
use vstd::string::*;
use crate::domain::error::{DomainError, DomainErrorView};
use crate::text::{append, same};

verus! {

// ---------------------------------------------------------------------------
// Errors
// ---------------------------------------------------------------------------

/// Why a tool call failed, as the protocol tells the two kinds apart.
#[derive(Debug, Clone, PartialEq, Eq)]
pub enum ToolError {
    /// The call was in order and failed.
    Internal(String),
    /// The call itself was out of order.
    InvalidParams(String),
}

/// A [`ToolError`] over character sequences.
pub enum ToolErrorView {
    Internal(Seq<char>),
    InvalidParams(Seq<char>),
}

impl DeepView for ToolError {
    type V = ToolErrorView;

    open spec fn deep_view(&self) -> ToolErrorView {
        match self {
            ToolError::Internal(m) => ToolErrorView::Internal(m@),
            ToolError::InvalidParams(m) => ToolErrorView::InvalidParams(m@),
        }
    }
}

/// What a client is told of a failed operation.
pub open spec fn told(e: DomainErrorView) -> ToolErrorView {
    ToolErrorView::Internal(e.message())
}

/// What a client is told of a failed operation.
pub fn to_mcp_error(e: DomainError) -> (r: ToolError)
    ensures
        r.deep_view() == told(e.deep_view()),
{
    ToolError::Internal(e.to_string())
}

// ---------------------------------------------------------------------------
// Modes
// ---------------------------------------------------------------------------

/// How much the server lets its clients do.
#[derive(Debug, Clone, Copy, PartialEq, Eq)]
pub enum ServerMode {
    /// Everything.
    Full,
    /// Looking at what is on this machine.
    ReadOnly,
    /// That, and bringing over what is on remotes.
    ReadRemote,
}

impl Default for ServerMode {
    fn default() -> (r: Self)
        ensures
            r == ServerMode::Full,
    {
        ServerMode::Full
    }
}

/// The tools that look at what is on this machine.
pub open spec fn is_local_read(tool: Seq<char>) -> bool {
    ||| tool == "session_start"@
    ||| tool == "worktree_list"@
    ||| tool == "status"@
    ||| tool == "diff"@
    ||| tool == "log"@
}

/// The tools that bring over what is on remotes.
pub open spec fn is_remote_read(tool: Seq<char>) -> bool {
    tool == "fetch"@ || tool == "remote_list"@
}

/// The tools that change something.
pub open spec fn is_write(tool: Seq<char>) -> bool {
    ||| tool == "commit"@
    ||| tool == "merge"@
    ||| tool == "session_release"@
    ||| tool == "worktree_add"@
    ||| tool == "worktree_remove"@
    ||| tool == "branch_delete"@
    ||| tool == "safe_reset"@
}

/// The tools that answer a question about branches, tags and history.
pub open spec fn is_inspection(tool: Seq<char>) -> bool {
    ||| tool == "branch_status"@
    ||| tool == "unpushed_commits"@
    ||| tool == "is_pushed"@
    ||| tool == "tag_pushed"@
    ||| tool == "reset_target"@
    ||| tool == "worktree_state"@
}

/// The tools there are.
pub open spec fn is_tool(tool: Seq<char>) -> bool {
    is_local_read(tool) || is_remote_read(tool) || is_write(tool) || is_inspection(tool)
}

/// The names of the tools, in the order in which they are listed.
pub open spec fn all_tools() -> Seq<Seq<char>> {
    seq![
        "session_start"@,
        "worktree_add"@,
        "worktree_remove"@,
        "session_release"@,
        "worktree_list"@,
        "branch_delete"@,
        "commit"@,
        "merge"@,
        "status"@,
        "diff"@,
        "log"@,
        "safe_reset"@,
        "fetch"@,
        "remote_list"@,
        "branch_status"@,
        "unpushed_commits"@,
        "is_pushed"@,
        "tag_pushed"@,
        "reset_target"@,
        "worktree_state"@,
    ]
}

/// The tools that a mode exposes.
pub open spec fn exposes(mode: ServerMode, tool: Seq<char>) -> bool {
    match mode {
        ServerMode::Full => is_tool(tool),
        ServerMode::ReadOnly => is_local_read(tool),
        ServerMode::ReadRemote => is_local_read(tool) || is_remote_read(tool),
    }
}

/// The tools that a mode holds back. A name that is no tool is not held back: that
/// there is no such tool is for the router to say.
pub open spec fn holds_back(mode: ServerMode, tool: Seq<char>) -> bool {
    is_tool(tool) && !exposes(mode, tool)
}

/// The tools that a mode lists.
pub open spec fn listed(mode: ServerMode) -> Seq<Seq<char>> {
    all_tools().filter(|t: Seq<char>| exposes(mode, t))
}

/// How a mode is called.
pub open spec fn mode_name(mode: ServerMode) -> Seq<char> {
    match mode {
        ServerMode::Full => "full"@,
        ServerMode::ReadOnly => "read-only"@,
        ServerMode::ReadRemote => "read-remote"@,
    }
}

/// What a client is told that calls a tool which the mode holds back.
pub open spec fn refusal(mode: ServerMode, tool: Seq<char>) -> ToolErrorView {
    ToolErrorView::InvalidParams(
        "tool '"@ + tool + "' is not available in "@ + mode_name(mode) + " mode"@,
    )
}

/// Whether the tool looks at what is on this machine.
fn local_read(tool: &str) -> (r: bool)
    ensures
        r == is_local_read(tool@),
{
    same(tool, "session_start") || same(tool, "worktree_list") || same(tool, "status") || same(
        tool,
        "diff",
    ) || same(tool, "log")
}

/// Whether the tool brings over what is on remotes.
fn remote_read(tool: &str) -> (r: bool)
    ensures
        r == is_remote_read(tool@),
{
    same(tool, "fetch") || same(tool, "remote_list")
}

/// Whether there is such a tool that does anything else.
fn elsewise(tool: &str) -> (r: bool)
    ensures
        r == (is_write(tool@) || is_inspection(tool@)),
{
    same(tool, "commit") || same(tool, "merge") || same(tool, "session_release") || same(
        tool,
        "worktree_add",
    ) || same(tool, "worktree_remove") || same(tool, "branch_delete") || same(tool, "safe_reset")
        || same(tool, "branch_status") || same(tool, "unpushed_commits") || same(tool, "is_pushed")
        || same(tool, "tag_pushed") || same(tool, "reset_target") || same(tool, "worktree_state")
}

/// The names of the tools, in the order in which they are listed.
pub fn tool_names() -> (r: Vec<String>)
    ensures
        r.deep_view() == all_tools(),
{
    let mut r: Vec<String> = Vec::new();
    append(&mut r, "session_start".to_string());
    append(&mut r, "worktree_add".to_string());
    append(&mut r, "worktree_remove".to_string());
    append(&mut r, "session_release".to_string());
    append(&mut r, "worktree_list".to_string());
    append(&mut r, "branch_delete".to_string());
    append(&mut r, "commit".to_string());
    append(&mut r, "merge".to_string());
    append(&mut r, "status".to_string());
    append(&mut r, "diff".to_string());
    append(&mut r, "log".to_string());
    append(&mut r, "safe_reset".to_string());
    append(&mut r, "fetch".to_string());
    append(&mut r, "remote_list".to_string());
    append(&mut r, "branch_status".to_string());
    append(&mut r, "unpushed_commits".to_string());
    append(&mut r, "is_pushed".to_string());
    append(&mut r, "tag_pushed".to_string());
    append(&mut r, "reset_target".to_string());
    append(&mut r, "worktree_state".to_string());
    assert(r.deep_view() =~= all_tools());
    r
}

impl ServerMode {
    /// Whether the mode exposes a tool.
    pub fn exposes(self, tool: &str) -> (r: bool)
        ensures
            r == exposes(self, tool@),
    {
        match self {
            ServerMode::Full => local_read(tool) || remote_read(tool) || elsewise(tool),
            ServerMode::ReadOnly => local_read(tool),
            ServerMode::ReadRemote => local_read(tool) || remote_read(tool),
        }
    }

    /// Whether the mode holds a tool back.
    fn holds_back(self, tool: &str) -> (r: bool)
        ensures
            r == holds_back(self, tool@),
    {
        let there = local_read(tool) || remote_read(tool) || elsewise(tool);
        there && !self.exposes(tool)
    }

    /// How the mode is called.
    fn name(self) -> (r: &'static str)
        ensures
            r@ == mode_name(self),
    {
        match self {
            ServerMode::Full => "full",
            ServerMode::ReadOnly => "read-only",
            ServerMode::ReadRemote => "read-remote",
        }
    }

    /// Lets a call through, or says why not.
    pub fn permit(self, tool: &str) -> (r: Result<(), ToolError>)
        ensures
            r is Ok <==> !holds_back(self, tool@),
            r matches Err(e) ==> e.deep_view() == refusal(self, tool@),
    {
        if self.holds_back(tool) {
            let message = "tool '".to_string().concat(tool).concat("' is not available in ").concat(
                self.name(),
            ).concat(" mode");
            Err(ToolError::InvalidParams(message))
        } else {
            Ok(())
        }
    }

    /// The tools that are listed to a client.
    pub fn tools(self) -> (r: Vec<String>)
        ensures
            r.deep_view() == listed(self),
    {
        let all = tool_names();
        let ghost ts = all.deep_view();
        let ghost shown = |t: Seq<char>| exposes(self, t);
        let mut r: Vec<String> = Vec::new();
        let mut i: usize = 0;
        assert(ts.take(0).filter(shown) =~= seq![]) by {
            reveal(Seq::filter);
        }
        while i < all.len()
            invariant
                ts == all.deep_view(),
                shown == (|t: Seq<char>| exposes(self, t)),
                i <= all@.len(),
                r.deep_view() == ts.take(i as int).filter(shown),
            decreases all@.len() - i,
        {
            proof {
                reveal(Seq::filter);
                assert(ts.take(i + 1).drop_last() =~= ts.take(i as int));
                assert(ts.take(i + 1).last() == all@[i as int]@);
            }
            if self.exposes(all[i].as_str()) {
                append(&mut r, all[i].clone());
            }
            i += 1;
        }
        assert(ts.take(i as int) =~= ts);
        r
    }
}

// ---------------------------------------------------------------------------
// Texts
// ---------------------------------------------------------------------------

/// What the server says of itself in every mode.
pub const BASE_INSTRUCTIONS: &'static str =
    "Git workflow operations for agent pipelines.\n\nIMPORTANT: Call session_start(repo_root) first before using any repository-scoped tools (worktree_*, branch_delete, merge).\n\nSession-based safety: each MCP session gets a unique ID. Destructive operations (worktree_remove, branch_delete, merge) only work on worktrees created by the same session.\n\nWorkflow: session_start → worktree_add → (work) → commit → merge → worktree_remove → branch_delete\n\nsession_release: take ownership of an orphan worktree from a previous session";

/// What it adds where it only reads.
pub const READ_ONLY_NOTE: &'static str =
    "\n\nNOTE: This server is running in read-only mode. Write operations are disabled.";

/// What it adds where it only reads, remotes too.
pub const READ_REMOTE_NOTE: &'static str =
    "\n\nNOTE: This server is running in read-remote mode. Write operations are disabled; fetch and remote_list are available for remote sync (no push).";

/// What the server says of itself.
pub open spec fn introduction(mode: ServerMode) -> Seq<char> {
    match mode {
        ServerMode::Full => BASE_INSTRUCTIONS@,
        ServerMode::ReadOnly => BASE_INSTRUCTIONS@ + READ_ONLY_NOTE@,
        ServerMode::ReadRemote => BASE_INSTRUCTIONS@ + READ_REMOTE_NOTE@,
    }
}

/// What the server says of itself.
pub fn instructions(mode: ServerMode) -> (r: String)
    ensures
        r@ == introduction(mode),
{
    match mode {
        ServerMode::Full => BASE_INSTRUCTIONS.to_string(),
        ServerMode::ReadOnly => BASE_INSTRUCTIONS.to_string().concat(READ_ONLY_NOTE),
        ServerMode::ReadRemote => BASE_INSTRUCTIONS.to_string().concat(READ_REMOTE_NOTE),
    }
}

/// What a client is told when a tool panicked; the payload of the panic, where it
/// is a text.
pub open spec fn panic_told(tool: Seq<char>, payload: Option<Seq<char>>) -> ToolErrorView {
    ToolErrorView::Internal(
        "tool '"@ + tool + "' panicked: "@ + match payload {
            Some(text) => text,
            None => "<non-string panic payload>"@,
        },
    )
}

/// What a client is told when a tool panicked.
pub fn panic_error(tool: &str, payload: Option<&str>) -> (r: ToolError)
    ensures
        r.deep_view() == panic_told(tool@, payload.deep_view()),
{
    let text = match payload {
        Some(text) => text,
        None => "<non-string panic payload>",
    };
    ToolError::Internal("tool '".to_string().concat(tool).concat("' panicked: ").concat(text))
}

// ---------------------------------------------------------------------------
// Running and shutting down
// ---------------------------------------------------------------------------

/// The seconds between two signs of life in the log.
pub const HEARTBEAT_INTERVAL_SECS: u64 = 30;

/// What made the server shut down.
#[derive(Debug)]
pub enum Shutdown {
    /// The service ended by itself, with a message where it ended in an error.
    Service(Option<String>),
    /// An interrupt from the terminal.
    CtrlC,
    /// A request to terminate.
    Sigterm,
    /// A write to a closed pipe.
    Sigpipe,
}

/// The word for what made the server shut down.
pub open spec fn reason_of(cause: Shutdown) -> Seq<char> {
    match cause {
        Shutdown::Service(None) => "stdin_eof"@,
        Shutdown::Service(Some(_)) => "service_error"@,
        Shutdown::CtrlC => "ctrl_c"@,
        Shutdown::Sigterm => "sigterm"@,
        Shutdown::Sigpipe => "sigpipe"@,
    }
}

impl Shutdown {
    /// The word for what made the server shut down, and the message where there is one.
    pub fn reason(self) -> (r: (&'static str, Option<String>))
        ensures
            r.0@ == reason_of(self),
            r.1 == match self {
                Shutdown::Service(error) => error,
                _ => None,
            },
    {
        match self {
            Shutdown::Service(None) => ("stdin_eof", None),
            Shutdown::Service(Some(error)) => ("service_error", Some(error)),
            Shutdown::CtrlC => ("ctrl_c", None),
            Shutdown::Sigterm => ("sigterm", None),
            Shutdown::Sigpipe => ("sigpipe", None),
        }
    }
}

} // verus!
