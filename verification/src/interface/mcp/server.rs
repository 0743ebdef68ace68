//! The state of a connection.

use vstd::prelude::*;
use vstd::string::*;
use crate::domain::error::{DomainError, DomainErrorView};
use crate::domain::session::{is_uuid_v4, SessionId};
use crate::infra::git::path::{join_path, joined_path};
use crate::interface::mcp::mode::{to_mcp_error, told, ServerMode, ToolError, ToolErrorView};
use crate::protocol::{
    ask_flag, flag, flow_view, Action, ActionView, Flow, FlowView, Halt, HaltView, Reply, ReplyView,
};

verus! {

/// A connection: the repository it works on once the session has started, its
/// identifier, and the mode of the server.
#[derive(Debug)]
pub struct GitWorkflowServer {
    repo_root: Option<String>,
    session_id: SessionId,
    mode: ServerMode,
}

/// A [`GitWorkflowServer`] over character sequences.
pub struct ServerView {
    pub repo_root: Option<Seq<char>>,
    pub session_id: Seq<char>,
    pub mode: ServerMode,
}

impl DeepView for GitWorkflowServer {
    type V = ServerView;

    closed spec fn deep_view(&self) -> ServerView {
        ServerView {
            repo_root: self.repo_root.deep_view(),
            session_id: self.session_id@,
            mode: self.mode,
        }
    }
}

impl Clone for GitWorkflowServer {
    fn clone(&self) -> (r: Self)
        ensures
            r.deep_view() == self.deep_view(),
    {
        let repo_root = match &self.repo_root {
            Some(root) => Some(root.clone()),
            None => None,
        };
        GitWorkflowServer { repo_root, session_id: self.session_id.clone(), mode: self.mode }
    }
}

/// What a client is told that calls a tool before the session has started.
pub open spec fn not_started() -> ToolErrorView {
    ToolErrorView::Internal("session not started: call session_start(repo_root) first"@)
}

/// The repository of a connection.
pub open spec fn root_flow(server: ServerView, at: nat) -> FlowView<Seq<char>, ToolErrorView> {
    match server.repo_root {
        Some(root) => Ok((root, at)),
        None => Err(HaltView::Fail(not_started(), at)),
    }
}

/// An operation as part of a tool: its failure becomes what the client is told.
pub open spec fn in_tool<T>(f: FlowView<T, DomainErrorView>) -> FlowView<T, ToolErrorView> {
    match f {
        Ok(v) => Ok(v),
        Err(HaltView::Ask(a)) => Err(HaltView::Ask(a)),
        Err(HaltView::Mismatch) => Err(HaltView::Mismatch),
        Err(HaltView::Fail(e, n)) => Err(HaltView::Fail(told(e), n)),
    }
}

/// An operation as part of a tool.
pub fn lift<T: DeepView>(f: Flow<T, DomainError>) -> (r: Flow<T, ToolError>)
    ensures
        flow_view(r) == in_tool(flow_view(f)),
{
    match f {
        Ok(v) => Ok(v),
        Err(Halt::Ask(a)) => Err(Halt::Ask(a)),
        Err(Halt::Mismatch) => Err(Halt::Mismatch),
        Err(Halt::Fail(e, n)) => Err(Halt::Fail(to_mcp_error(e), n)),
    }
}

/// Whether there is a repository at `root`: with a working tree, or a bare one.
pub open spec fn repository_flow(root: Seq<char>, replies: Seq<ReplyView>, at: nat) -> FlowView<
    bool,
    ToolErrorView,
> {
    match flag(ActionView::PathExists { path: joined_path(root, ".git"@) }, replies, at) {
        Ok((false, n)) => flag(
            ActionView::PathExists { path: joined_path(root, "HEAD"@) },
            replies,
            n,
        ),
        found => found,
    }
}

/// What a client is told when the session has started.
pub open spec fn started_text(session_id: Seq<char>, root: Seq<char>) -> Seq<char> {
    "Session started.\n- Session ID: "@ + session_id + "\n- Repo root: "@ + root
}

/// Starting the session with a repository.
pub open spec fn session_start_flow(
    server: ServerView,
    root: Seq<char>,
    replies: Seq<ReplyView>,
    at: nat,
) -> FlowView<Seq<char>, ToolErrorView> {
    match repository_flow(root, replies, at) {
        Ok((true, n)) => Ok((started_text(server.session_id, root), n)),
        Ok((false, n)) => Err(
            HaltView::Fail(ToolErrorView::Internal("not a git repository: "@ + root), n),
        ),
        Err(h) => Err(h),
    }
}

/// The connection after `session_start` came to `outcome`.
pub open spec fn after_session_start(
    server: ServerView,
    root: Seq<char>,
    outcome: FlowView<Seq<char>, ToolErrorView>,
) -> ServerView {
    match outcome {
        Ok(_) => ServerView { repo_root: Some(root), ..server },
        Err(_) => server,
    }
}

impl GitWorkflowServer {
    /// A new connection, with an identifier of its own.
    pub fn new(mode: ServerMode) -> (r: Self)
        ensures
            r.deep_view().repo_root is None,
            is_uuid_v4(r.deep_view().session_id),
            r.deep_view().mode == mode,
    {
        GitWorkflowServer { repo_root: None, session_id: SessionId::new(), mode }
    }

    /// The identifier of the session.
    pub fn session_id(&self) -> (r: &SessionId)
        ensures
            r@ == self.deep_view().session_id,
    {
        &self.session_id
    }

    /// The mode of the server.
    pub fn mode(&self) -> (r: ServerMode)
        ensures
            r == self.deep_view().mode,
    {
        self.mode
    }

    /// The repository of the connection.
    pub fn repo_root(&self, at: usize) -> (r: Flow<String, ToolError>)
        ensures
            flow_view(r) == root_flow(self.deep_view(), at as nat),
    {
        match &self.repo_root {
            Some(root) => Ok((root.clone(), at)),
            None => Err(
                Halt::Fail(
                    ToolError::Internal(
                        "session not started: call session_start(repo_root) first".to_string(),
                    ),
                    at,
                ),
            ),
        }
    }

    /// Starts the session with a repository.
    pub fn session_start(&mut self, repo_root: &str, replies: &[Reply], at: usize) -> (r: Flow<
        String,
        ToolError,
    >)
        ensures
            flow_view(r) == session_start_flow(
                old(self).deep_view(),
                repo_root@,
                replies.deep_view(),
                at as nat,
            ),
            final(self).deep_view() == after_session_start(
                old(self).deep_view(),
                repo_root@,
                flow_view(r),
            ),
    {
        let path = join_path(repo_root, ".git");
        let (mut found, mut at) = ask_flag(Action::PathExists { path }, replies, at)?;
        if !found {
            let path = join_path(repo_root, "HEAD");
            let (bare, next) = ask_flag(Action::PathExists { path }, replies, at)?;
            found = bare;
            at = next;
        }
        if !found {
            let message = "not a git repository: ".to_string().concat(repo_root);
            return Err(Halt::Fail(ToolError::Internal(message), at));
        }
        self.repo_root = Some(repo_root.to_string());
        let text = "Session started.\n- Session ID: ".to_string().concat(
            self.session_id.as_str(),
        ).concat("\n- Repo root: ").concat(repo_root);
        Ok((text, at))
    }
}

} // verus!
