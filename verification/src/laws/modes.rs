//! What holds of the modes of the server.

use vstd::prelude::*;
use crate::infra::git::remote::fetch_args;
use crate::interface::mcp::call::{call_flow, tool_of, ToolCallView, ToolOutputView};
use crate::interface::mcp::mode::{
    all_tools, exposes, holds_back, introduction, is_inspection, is_local_read, is_remote_read,
    is_tool, is_write, listed, panic_told, reason_of, refusal, ServerMode, Shutdown, ToolErrorView,
    BASE_INSTRUCTIONS,
};
use crate::interface::mcp::server::ServerView;
use crate::laws::commands::{law_calls_ask_only_for_theirs, only_looks};
use crate::protocol::{ActionView, HaltView, ReplyView};

verus! {

/// The tools that read, here and on remotes, are others than those that write and
/// those that inspect.
proof fn lemma_names_differ(tool: Seq<char>)
    ensures
        is_write(tool) || is_inspection(tool) ==> !is_local_read(tool) && !is_remote_read(tool),
        is_remote_read(tool) ==> !is_local_read(tool),
{
    reveal_strlit("session_start");
    reveal_strlit("worktree_list");
    reveal_strlit("status");
    reveal_strlit("diff");
    reveal_strlit("log");
    reveal_strlit("fetch");
    reveal_strlit("remote_list");
    reveal_strlit("commit");
    reveal_strlit("merge");
    reveal_strlit("session_release");
    reveal_strlit("worktree_add");
    reveal_strlit("worktree_remove");
    reveal_strlit("branch_delete");
    reveal_strlit("safe_reset");
    reveal_strlit("branch_status");
    reveal_strlit("unpushed_commits");
    reveal_strlit("is_pushed");
    reveal_strlit("tag_pushed");
    reveal_strlit("reset_target");
    reveal_strlit("worktree_state");
    let (n, first) = (tool.len(), tool[0]);
    assert(is_local_read(tool) ==> n == 13 && first != 'b' || n == 6 && first == 's' || n == 4 || n
        == 3);
    assert(is_remote_read(tool) ==> n == 5 && first == 'f' || n == 11);
    assert(is_write(tool) || is_inspection(tool) ==> n == 13 && first == 'b' || n == 6 && first
        == 'c' || n == 5 && first == 'm' || n == 9 || n == 10 || n == 12 || n >= 14);
}

/// Each mode exposes at least what the next smaller one does: `full` all that
/// `read-remote` does, and `read-remote` all that `read-only` does.
pub proof fn law_modes_nest(tool: Seq<char>)
    ensures
        exposes(ServerMode::ReadOnly, tool) ==> exposes(ServerMode::ReadRemote, tool),
        exposes(ServerMode::ReadRemote, tool) ==> exposes(ServerMode::Full, tool),
{
}

/// The full mode exposes every tool and holds none back; the two others expose no
/// tool that writes; and what `read-remote` exposes beyond `read-only` is `fetch` and
/// `remote_list`.
pub proof fn law_modes_expose(tool: Seq<char>)
    ensures
        exposes(ServerMode::Full, tool) <==> is_tool(tool),
        !holds_back(ServerMode::Full, tool),
        is_write(tool) ==> holds_back(ServerMode::ReadOnly, tool) && holds_back(
            ServerMode::ReadRemote,
            tool,
        ),
        exposes(ServerMode::ReadRemote, tool) && !exposes(ServerMode::ReadOnly, tool) <==> tool
            == "fetch"@ || tool == "remote_list"@,
{
    lemma_names_differ(tool);
}

/// The length and the two ends of a name, by which the names of the tools are told apart.
spec fn marks(i: int, name: Seq<char>) -> bool {
    let (n, first, last) = (name.len(), name[0], name.last());
    ||| i == 0 && n == 13 && first == 's' && last == 't'
    ||| i == 1 && n == 12 && first == 'w' && last == 'd'
    ||| i == 2 && n == 15 && first == 'w' && last == 'e'
    ||| i == 3 && n == 15 && first == 's' && last == 'e'
    ||| i == 4 && n == 13 && first == 'w' && last == 't'
    ||| i == 5 && n == 13 && first == 'b' && last == 'e'
    ||| i == 6 && n == 6 && first == 'c' && last == 't'
    ||| i == 7 && n == 5 && first == 'm' && last == 'e'
    ||| i == 8 && n == 6 && first == 's' && last == 's'
    ||| i == 9 && n == 4 && first == 'd' && last == 'f'
    ||| i == 10 && n == 3 && first == 'l' && last == 'g'
    ||| i == 11 && n == 10 && first == 's' && last == 't'
    ||| i == 12 && n == 5 && first == 'f' && last == 'h'
    ||| i == 13 && n == 11 && first == 'r' && last == 't'
    ||| i == 14 && n == 13 && first == 'b' && last == 's'
    ||| i == 15 && n == 16 && first == 'u' && last == 's'
    ||| i == 16 && n == 9 && first == 'i' && last == 'd'
    ||| i == 17 && n == 10 && first == 't' && last == 'd'
    ||| i == 18 && n == 12 && first == 'r' && last == 't'
    ||| i == 19 && n == 14 && first == 'w' && last == 'e'
}

/// No two tools have the same name.
proof fn lemma_tools_differ()
    ensures
        all_tools().no_duplicates(),
{
    reveal_strlit("session_start");
    reveal_strlit("worktree_add");
    reveal_strlit("worktree_remove");
    reveal_strlit("session_release");
    reveal_strlit("worktree_list");
    reveal_strlit("branch_delete");
    reveal_strlit("commit");
    reveal_strlit("merge");
    reveal_strlit("status");
    reveal_strlit("diff");
    reveal_strlit("log");
    reveal_strlit("safe_reset");
    reveal_strlit("fetch");
    reveal_strlit("remote_list");
    reveal_strlit("branch_status");
    reveal_strlit("unpushed_commits");
    reveal_strlit("is_pushed");
    reveal_strlit("tag_pushed");
    reveal_strlit("reset_target");
    reveal_strlit("worktree_state");
    assert(marks(0, all_tools()[0]));
    assert(marks(1, all_tools()[1]));
    assert(marks(2, all_tools()[2]));
    assert(marks(3, all_tools()[3]));
    assert(marks(4, all_tools()[4]));
    assert(marks(5, all_tools()[5]));
    assert(marks(6, all_tools()[6]));
    assert(marks(7, all_tools()[7]));
    assert(marks(8, all_tools()[8]));
    assert(marks(9, all_tools()[9]));
    assert(marks(10, all_tools()[10]));
    assert(marks(11, all_tools()[11]));
    assert(marks(12, all_tools()[12]));
    assert(marks(13, all_tools()[13]));
    assert(marks(14, all_tools()[14]));
    assert(marks(15, all_tools()[15]));
    assert(marks(16, all_tools()[16]));
    assert(marks(17, all_tools()[17]));
    assert(marks(18, all_tools()[18]));
    assert(marks(19, all_tools()[19]));
    assert(forall|i: int|
        0 <= i < all_tools().len() ==> marks(i, #[trigger] all_tools()[i]));
}

/// The tools there are are those in the list.
proof fn lemma_tools_are_listed(tool: Seq<char>)
    ensures
        is_tool(tool) <==> all_tools().contains(tool),
{
    let all = all_tools();
    assert(all[0] == "session_start"@);
    assert(all[1] == "worktree_add"@);
    assert(all[2] == "worktree_remove"@);
    assert(all[3] == "session_release"@);
    assert(all[4] == "worktree_list"@);
    assert(all[5] == "branch_delete"@);
    assert(all[6] == "commit"@);
    assert(all[7] == "merge"@);
    assert(all[8] == "status"@);
    assert(all[9] == "diff"@);
    assert(all[10] == "log"@);
    assert(all[11] == "safe_reset"@);
    assert(all[12] == "fetch"@);
    assert(all[13] == "remote_list"@);
    assert(all[14] == "branch_status"@);
    assert(all[15] == "unpushed_commits"@);
    assert(all[16] == "is_pushed"@);
    assert(all[17] == "tag_pushed"@);
    assert(all[18] == "reset_target"@);
    assert(all[19] == "worktree_state"@);
    if all.contains(tool) {
        let i = all.index_of(tool);
        assert(all[i] == tool);
    }
}

/// Each mode lists the tools that it exposes and no others, each of them once. No mode
/// lists a tool that pushes or clones.
pub proof fn law_modes_list_what_they_expose(mode: ServerMode, tool: Seq<char>)
    ensures
        listed(mode).contains(tool) <==> exposes(mode, tool),
        listed(mode).no_duplicates(),
        !listed(mode).contains("push"@),
        !listed(mode).contains("clone"@),
{
    let shown = |t: Seq<char>| exposes(mode, t);
    lemma_tools_differ();
    lemma_listed(mode, tool);
    lemma_listed(mode, "push"@);
    lemma_listed(mode, "clone"@);
    lemma_filter_keeps_unique(all_tools(), shown);
    lemma_no_such_tools();
}

/// Pushing and cloning are no tools.
proof fn lemma_no_such_tools()
    ensures
        !is_tool("push"@),
        !is_tool("clone"@),
{
    reveal_strlit("session_start");
    reveal_strlit("worktree_add");
    reveal_strlit("worktree_remove");
    reveal_strlit("session_release");
    reveal_strlit("worktree_list");
    reveal_strlit("branch_delete");
    reveal_strlit("commit");
    reveal_strlit("merge");
    reveal_strlit("status");
    reveal_strlit("diff");
    reveal_strlit("log");
    reveal_strlit("safe_reset");
    reveal_strlit("fetch");
    reveal_strlit("remote_list");
    reveal_strlit("branch_status");
    reveal_strlit("unpushed_commits");
    reveal_strlit("is_pushed");
    reveal_strlit("tag_pushed");
    reveal_strlit("reset_target");
    reveal_strlit("worktree_state");
    reveal_strlit("push");
    reveal_strlit("clone");
    assert("push"@.len() == 4 && "push"@[0] == 'p');
    assert("clone"@.len() == 5 && "clone"@[0] == 'c');
}

/// A mode lists a tool if and only if it exposes it.
proof fn lemma_listed(mode: ServerMode, tool: Seq<char>)
    ensures
        listed(mode).contains(tool) <==> exposes(mode, tool),
{
    let shown = |t: Seq<char>| exposes(mode, t);
    lemma_tools_are_listed(tool);
    law_modes_nest(tool);
    broadcast use vstd::seq_lib::group_filter_ensures;
    if listed(mode).contains(tool) {
        let i = listed(mode).index_of(tool);
        assert(shown(listed(mode)[i]));
    }
    if exposes(mode, tool) {
        let i = all_tools().index_of(tool);
        assert(shown(all_tools()[i]));
        assert(all_tools().filter(shown).contains(all_tools()[i]));
    }
}

/// What is left of a sequence without repetition has none.
proof fn lemma_filter_keeps_unique(s: Seq<Seq<char>>, keep: spec_fn(Seq<char>) -> bool)
    requires
        s.no_duplicates(),
    ensures
        s.filter(keep).no_duplicates(),
    decreases s.len(),
{
    reveal(Seq::filter);
    if s.len() > 0 {
        let less = s.drop_last();
        lemma_filter_keeps_unique(less, keep);
        let kept = less.filter(keep);
        if kept.contains(s.last()) {
            less.lemma_filter_contains_rev(keep, s.last());
            let j = less.index_of(s.last());
            assert(s[j] == s.last());
        }
        assert forall|i: int| 0 <= i < kept.len() implies kept[i] != s.last() by {
            assert(kept.contains(kept[i]));
        }
    }
}

/// A call of a tool that the mode holds back is refused, and nothing is asked for.
pub proof fn law_held_back_calls_are_refused(
    server: ServerView,
    call: ToolCallView,
    replies: Seq<ReplyView>,
    at: nat,
)
    requires
        holds_back(server.mode, tool_of(call)),
    ensures
        call_flow(server, call, replies, at) == Err::<(ToolOutputView, nat), _>(
            HaltView::Fail(refusal(server.mode, tool_of(call)), at),
        ),
{
}

/// The calls that a mode lets through to read here.
pub open spec fn reads_here(call: ToolCallView) -> bool {
    ||| call is SessionStart
    ||| call is WorktreeList
    ||| call is Status
    ||| call is Diff
    ||| call is Log
}

/// In `read-only` mode no call asks for anything but looking: the git commands that
/// it runs only look, and session records are read and never written.
pub proof fn law_read_only_mode_only_looks(
    server: ServerView,
    call: ToolCallView,
    replies: Seq<ReplyView>,
    at: nat,
)
    requires
        server.mode is ReadOnly,
    ensures
        match call_flow(server, call, replies, at) {
            Err(HaltView::Ask(ActionView::Git { args, .. })) => only_looks(args),
            Err(HaltView::Ask(ActionView::WriteSessions { .. })) => false,
            _ => true,
        },
{
    lemma_names_differ(tool_of(call));
    law_calls_ask_only_for_theirs(server, call, replies, at);
    assert(!reads_here(call) ==> holds_back(server.mode, tool_of(call)));
}

/// In `read-remote` mode the one git command beyond looking is fetching.
pub proof fn law_read_remote_mode_only_looks_and_fetches(
    server: ServerView,
    call: ToolCallView,
    replies: Seq<ReplyView>,
    at: nat,
)
    requires
        server.mode is ReadRemote,
    ensures
        match call_flow(server, call, replies, at) {
            Err(HaltView::Ask(ActionView::Git { args, .. })) => only_looks(args) || (
            call matches ToolCallView::Fetch { remote, refspec, prune, .. } && args == fetch_args(
                remote,
                refspec,
                prune,
            )),
            Err(HaltView::Ask(ActionView::WriteSessions { .. })) => false,
            _ => true,
        },
{
    lemma_names_differ(tool_of(call));
    law_calls_ask_only_for_theirs(server, call, replies, at);
    assert(!reads_here(call) && !(call is Fetch) && !(call is RemoteList) ==> holds_back(
        server.mode,
        tool_of(call),
    ));
}

/// The read-only mode exposes five tools, the read-remote mode two more, and the full
/// mode all twenty; a mode holds back the tools that it does not expose.
pub proof fn law_modes_expose_these(mode: ServerMode, tool: Seq<char>)
    ensures
        exposes(ServerMode::ReadOnly, tool) <==> {
            ||| tool == "session_start"@
            ||| tool == "worktree_list"@
            ||| tool == "status"@
            ||| tool == "diff"@
            ||| tool == "log"@
        },
        exposes(ServerMode::ReadRemote, tool) <==> {
            ||| tool == "session_start"@
            ||| tool == "worktree_list"@
            ||| tool == "status"@
            ||| tool == "diff"@
            ||| tool == "log"@
            ||| tool == "fetch"@
            ||| tool == "remote_list"@
        },
        exposes(ServerMode::Full, tool) <==> {
            ||| tool == "session_start"@
            ||| tool == "worktree_add"@
            ||| tool == "worktree_remove"@
            ||| tool == "session_release"@
            ||| tool == "worktree_list"@
            ||| tool == "branch_delete"@
            ||| tool == "commit"@
            ||| tool == "merge"@
            ||| tool == "status"@
            ||| tool == "diff"@
            ||| tool == "log"@
            ||| tool == "safe_reset"@
            ||| tool == "fetch"@
            ||| tool == "remote_list"@
            ||| tool == "branch_status"@
            ||| tool == "unpushed_commits"@
            ||| tool == "is_pushed"@
            ||| tool == "tag_pushed"@
            ||| tool == "reset_target"@
            ||| tool == "worktree_state"@
        },
        holds_back(mode, tool) <==> exposes(ServerMode::Full, tool) && !exposes(mode, tool),
{
}

/// The tool of a call is the one of its name.
pub proof fn law_calls_are_named(call: ToolCallView)
    ensures
        match call {
            ToolCallView::SessionStart { .. } => tool_of(call) == "session_start"@,
            ToolCallView::WorktreeAdd { .. } => tool_of(call) == "worktree_add"@,
            ToolCallView::WorktreeRemove { .. } => tool_of(call) == "worktree_remove"@,
            ToolCallView::SessionRelease { .. } => tool_of(call) == "session_release"@,
            ToolCallView::WorktreeList => tool_of(call) == "worktree_list"@,
            ToolCallView::BranchDelete { .. } => tool_of(call) == "branch_delete"@,
            ToolCallView::Commit { .. } => tool_of(call) == "commit"@,
            ToolCallView::Merge { .. } => tool_of(call) == "merge"@,
            ToolCallView::Status { .. } => tool_of(call) == "status"@,
            ToolCallView::Diff(_) => tool_of(call) == "diff"@,
            ToolCallView::Log { .. } => tool_of(call) == "log"@,
            ToolCallView::SafeReset { .. } => tool_of(call) == "safe_reset"@,
            ToolCallView::Fetch { .. } => tool_of(call) == "fetch"@,
            ToolCallView::RemoteList { .. } => tool_of(call) == "remote_list"@,
            ToolCallView::BranchStatus { .. } => tool_of(call) == "branch_status"@,
            ToolCallView::UnpushedCommits { .. } => tool_of(call) == "unpushed_commits"@,
            ToolCallView::IsPushed { .. } => tool_of(call) == "is_pushed"@,
            ToolCallView::TagPushed { .. } => tool_of(call) == "tag_pushed"@,
            ToolCallView::ResetTarget { .. } => tool_of(call) == "reset_target"@,
            ToolCallView::WorktreeState { .. } => tool_of(call) == "worktree_state"@,
        },
{
}

/// A refusal names the tool and the mode.
pub proof fn law_refusals_name_the_tool(tool: Seq<char>)
    ensures
        refusal(ServerMode::Full, tool) == ToolErrorView::InvalidParams(
            "tool '"@ + tool + "' is not available in "@ + "full"@ + " mode"@,
        ),
        refusal(ServerMode::ReadOnly, tool) == ToolErrorView::InvalidParams(
            "tool '"@ + tool + "' is not available in "@ + "read-only"@ + " mode"@,
        ),
        refusal(ServerMode::ReadRemote, tool) == ToolErrorView::InvalidParams(
            "tool '"@ + tool + "' is not available in "@ + "read-remote"@ + " mode"@,
        ),
{
}

/// The server says the same of itself in every mode, and where it does not expose every
/// tool it adds that it does not write.
pub proof fn law_introductions_say_what_is_held_back(mode: ServerMode)
    ensures
        introduction(mode) == match mode {
            ServerMode::Full => BASE_INSTRUCTIONS@,
            ServerMode::ReadOnly => BASE_INSTRUCTIONS@
                + "\n\nNOTE: This server is running in read-only mode. Write operations are disabled."@,
            ServerMode::ReadRemote => BASE_INSTRUCTIONS@
                + "\n\nNOTE: This server is running in read-remote mode. Write operations are disabled; fetch and remote_list are available for remote sync (no push)."@,
        },
{
}

/// A client is told which tool panicked, and how where the panic has a text.
pub proof fn law_panics_are_told(tool: Seq<char>, text: Seq<char>)
    ensures
        panic_told(tool, Some(text)) == ToolErrorView::Internal(
            "tool '"@ + tool + "' panicked: "@ + text,
        ),
        panic_told(tool, None) == ToolErrorView::Internal(
            "tool '"@ + tool + "' panicked: "@ + "<non-string panic payload>"@,
        ),
{
}

/// The words for what made the server shut down.
pub proof fn law_shutdowns_are_named(cause: Shutdown)
    ensures
        reason_of(cause) == match cause {
            Shutdown::Service(error) => if error is None {
                "stdin_eof"@
            } else {
                "service_error"@
            },
            Shutdown::CtrlC => "ctrl_c"@,
            Shutdown::Sigterm => "sigterm"@,
            Shutdown::Sigpipe => "sigpipe"@,
        },
{
}

/// The tools of each mode, in the order in which they are listed.
pub proof fn law_modes_list_in_order()
    ensures
        listed(ServerMode::Full) == seq![
            "session_start"@,
            "worktree_add"@,
            "worktree_remove"@,
            "session_release"@,
            "worktree_list"@,
            "branch_delete"@,
            "commit"@,
            "merge"@,
            "status"@,
            "diff"@,
            "log"@,
            "safe_reset"@,
            "fetch"@,
            "remote_list"@,
            "branch_status"@,
            "unpushed_commits"@,
            "is_pushed"@,
            "tag_pushed"@,
            "reset_target"@,
            "worktree_state"@,
        ],
        listed(ServerMode::ReadOnly) == seq![
            "session_start"@,
            "worktree_list"@,
            "status"@,
            "diff"@,
            "log"@,
        ],
        listed(ServerMode::ReadRemote) == seq![
            "session_start"@,
            "worktree_list"@,
            "status"@,
            "diff"@,
            "log"@,
            "fetch"@,
            "remote_list"@,
        ],
{
    lemma_kept_or_not(all_tools(), ServerMode::Full);
    lemma_listed_parts(ServerMode::ReadOnly);
    lemma_listed_parts(ServerMode::ReadRemote);
    assert(listed(ServerMode::ReadOnly) =~= seq![
        "session_start"@,
        "worktree_list"@,
        "status"@,
        "diff"@,
        "log"@,
    ]);
    assert(listed(ServerMode::ReadRemote) =~= seq![
        "session_start"@,
        "worktree_list"@,
        "status"@,
        "diff"@,
        "log"@,
        "fetch"@,
        "remote_list"@,
    ]);
}

/// Tools that a mode exposes all stay in its list, and tools that it exposes none of
/// leave nothing there.
proof fn lemma_kept_or_not(tools: Seq<Seq<char>>, mode: ServerMode)
    ensures
        ({
            let shown = |t: Seq<char>| exposes(mode, t);
            &&& (forall|i: int| 0 <= i < tools.len() ==> exposes(mode, #[trigger] tools[i]))
                ==> tools.filter(shown) == tools
            &&& (forall|i: int| 0 <= i < tools.len() ==> !exposes(mode, #[trigger] tools[i]))
                ==> tools.filter(shown) == Seq::<Seq<char>>::empty()
        }),
    decreases tools.len(),
{
    reveal(Seq::filter);
    if tools.len() > 0 {
        let less = tools.drop_last();
        lemma_kept_or_not(less, mode);
        assert(forall|i: int| 0 <= i < less.len() ==> less[i] == tools[i]);
        assert(less.push(tools.last()) =~= tools);
        assert(tools[tools.len() - 1] == tools.last());
        if forall|i: int| 0 <= i < tools.len() ==> exposes(mode, #[trigger] tools[i]) {
            assert(forall|i: int| 0 <= i < less.len() ==> exposes(mode, #[trigger] less[i]));
        }
        if forall|i: int| 0 <= i < tools.len() ==> !exposes(mode, #[trigger] tools[i]) {
            assert(forall|i: int| 0 <= i < less.len() ==> !exposes(mode, #[trigger] less[i]));
        }
    } else {
        assert(tools =~= seq![]);
    }
}

/// What the two smaller modes keep of the list, part by part.
proof fn lemma_listed_parts(mode: ServerMode)
    requires
        !(mode is Full),
    ensures
        listed(mode) == seq!["session_start"@] + seq!["worktree_list"@] + seq![
            "status"@,
            "diff"@,
            "log"@,
        ] + if mode is ReadRemote {
            seq!["fetch"@, "remote_list"@]
        } else {
            seq![]
        },
{
    let shown = |t: Seq<char>| exposes(mode, t);
    let a = seq!["session_start"@];
    let b = seq!["worktree_add"@, "worktree_remove"@, "session_release"@];
    let c = seq!["worktree_list"@];
    let d = seq!["branch_delete"@, "commit"@, "merge"@];
    let e = seq!["status"@, "diff"@, "log"@];
    let f = seq!["safe_reset"@];
    let g = seq!["fetch"@, "remote_list"@];
    let h = seq![
        "branch_status"@,
        "unpushed_commits"@,
        "is_pushed"@,
        "tag_pushed"@,
        "reset_target"@,
        "worktree_state"@,
    ];
    assert(all_tools() =~= a + b + c + d + e + f + g + h);
    Seq::filter_distributes_over_add(a + b + c + d + e + f + g, h, shown);
    Seq::filter_distributes_over_add(a + b + c + d + e + f, g, shown);
    Seq::filter_distributes_over_add(a + b + c + d + e, f, shown);
    Seq::filter_distributes_over_add(a + b + c + d, e, shown);
    Seq::filter_distributes_over_add(a + b + c, d, shown);
    Seq::filter_distributes_over_add(a + b, c, shown);
    Seq::filter_distributes_over_add(a, b, shown);
    assert forall|t: Seq<char>| is_write(t) || is_inspection(t) implies !#[trigger] exposes(
        mode,
        t,
    ) by {
        lemma_names_differ(t);
    }
    assert forall|t: Seq<char>| #[trigger] is_remote_read(t) implies !is_local_read(t) by {
        lemma_names_differ(t);
    }
    assert(forall|i: int| 0 <= i < b.len() ==> is_write(#[trigger] b[i]));
    assert(forall|i: int| 0 <= i < d.len() ==> is_write(#[trigger] d[i]));
    assert(forall|i: int| 0 <= i < f.len() ==> is_write(#[trigger] f[i]));
    assert(forall|i: int| 0 <= i < g.len() ==> is_remote_read(#[trigger] g[i]));
    assert(forall|i: int| 0 <= i < h.len() ==> is_inspection(#[trigger] h[i]));
    lemma_kept_or_not(a, mode);
    lemma_kept_or_not(b, mode);
    lemma_kept_or_not(c, mode);
    lemma_kept_or_not(d, mode);
    lemma_kept_or_not(e, mode);
    lemma_kept_or_not(f, mode);
    lemma_kept_or_not(g, mode);
    lemma_kept_or_not(h, mode);
    let none = Seq::<Seq<char>>::empty();
    assert(a + none + c + none + e + none + g + none =~= a + c + e + g);
    assert(a + none + c + none + e + none + none + none =~= a + c + e + none);
}

} // verus!
