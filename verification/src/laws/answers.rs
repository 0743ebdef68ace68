//! What holds of the answers.

use vstd::prelude::*;
use crate::domain::error::DomainErrorView;
use crate::domain::session::WorktreeSessionView;
use crate::domain::worktree::WorktreeView;
use crate::infra::git::inspect::worktree_state_flow;
use crate::infra::git::path::{joined_path, worktree_path_of};
use crate::infra::git::working::status_flow;
use crate::infra::session_store::owner_in;
use crate::infra::observability::{
    given, log_dir_flow, log_level_flow, panic_record, timestamp, FILE_PREFIX, FILE_SUFFIX,
    PANIC_LOG_NAME,
};
use crate::interface::mcp::call::{call_flow, tool_flow, ToolCallView, ToolOutputView};
use crate::interface::mcp::server::ServerView;
use crate::interface::mcp::tools::{
    fits, fitting_owner, owner_at, worktree_line, worktree_lines, Fit,
};
use crate::laws::formats::lacks;
use crate::protocol::{ActionView, HaltView, ReplyView};
use crate::text::{closes_with, decimal_of};

verus! {

/// The fields of an answer agree with each other: `up_to_date` says that both counts
/// are zero, `pushed` that there are refs, `clean` that nothing is uncommitted, and the
/// count of commits is their number as far as it can be counted.
pub proof fn law_fields_agree(
    server: ServerView,
    call: ToolCallView,
    replies: Seq<ReplyView>,
    at: nat,
)
    ensures
        match call_flow(server, call, replies, at) {
            Ok((ToolOutputView::Branch(b), _)) => b.up_to_date <==> b.ahead == 0 && b.behind == 0,
            Ok((ToolOutputView::Unpushed(u), _)) => u.commits.len() <= u32::MAX ==> u.count
                == u.commits.len(),
            Ok((ToolOutputView::Pushed(p), _)) => p.pushed <==> p.refs.len() > 0,
            Ok((ToolOutputView::Tag(t), _)) => t.pushed <==> t.remote_refs.len() > 0,
            Ok((ToolOutputView::State(s), _)) => {
                &&& s.clean <==> s.uncommitted == 0
                &&& s.tracking is None ==> s.ahead == 0 && s.behind == 0
            },
            _ => true,
        },
{
    match call {
        ToolCallView::WorktreeState { working_dir, branch } => {
            let f = worktree_state_flow(working_dir, branch, replies, at);
            assert(f matches Ok((s, _)) ==> (s.clean <==> s.uncommitted == 0) && (s.tracking is None
                ==> s.ahead == 0 && s.behind == 0));
            reveal(tool_flow);
        },
        _ => {
            reveal(tool_flow);
        },
    }
}

/// A status is clean if and only if it names no changed file, and it names no empty
/// one.
pub proof fn law_clean_means_no_changes(dir: Seq<char>, replies: Seq<ReplyView>, at: nat)
    ensures
        status_flow(dir, replies, at) matches Ok((status, _)) ==> {
            &&& status.clean <==> status.changed_files.len() == 0
            &&& forall|i: int|
                0 <= i < status.changed_files.len() ==> (#[trigger] status.changed_files[i]).len()
                    > 0
        },
{
    broadcast use vstd::seq_lib::group_filter_ensures;
}

/// The list has a line for each worktree that is not bare, in the order in which git
/// lists them, and no other lines.
pub proof fn law_every_worktree_is_listed(
    worktrees: Seq<WorktreeView>,
    root: Seq<char>,
    sessions: Seq<WorktreeSessionView>,
    caller: Seq<char>,
)
    ensures
        worktree_lines(worktrees, root, sessions, caller) == worktrees.filter(
            |w: WorktreeView| !w.is_bare,
        ).map_values(|w: WorktreeView| worktree_line(w, root, sessions, caller)),
    decreases worktrees.len(),
{
    reveal(Seq::filter);
    let line = |w: WorktreeView| worktree_line(w, root, sessions, caller);
    let shown = |w: WorktreeView| !w.is_bare;
    if worktrees.len() > 0 {
        law_every_worktree_is_listed(worktrees.drop_last(), root, sessions, caller);
        let earlier = worktrees.drop_last().filter(shown);
        assert(earlier.push(worktrees.last()).map_values(line) =~= earlier.map_values(line).push(
            line(worktrees.last()),
        ));
    } else {
        assert(worktree_lines(worktrees, root, sessions, caller) =~= worktrees.filter(
            shown,
        ).map_values(line));
    }
}

/// Where a name without separators fits the path of a worktree that the server makes, it
/// is the name of that worktree.
proof fn lemma_fits(root: Seq<char>, name: Seq<char>, other: Seq<char>, fit: Fit)
    requires
        lacks(name, '/'),
        lacks(other, '/'),
    ensures
        fits(root, worktree_path_of(root, name), other, fit) ==> other == name,
{
    reveal_strlit("/.worktrees/");
    reveal_strlit(".worktrees");
    reveal_strlit("/");
    let dir = joined_path(root, ".worktrees"@);
    let path = worktree_path_of(root, name);
    assert(path =~= dir + seq!['/'] + name);
    if fits(root, path, other, fit) {
        let tail = match fit {
            Fit::Place => seq!['/'] + other,
            Fit::Ending => "/.worktrees/"@ + other,
            Fit::Name => "/"@ + other,
        };
        if fit is Place {
            assert(worktree_path_of(root, other) =~= dir + tail);
        }
        let (n, k, m) = (path.len() as int, tail.len() as int, other.len() as int);
        assert(path.subrange(n - k, n) =~= tail);
        // The last separator of the path is before the one name and before the other.
        let slash = n - m - 1;
        assert(path[slash] == '/') by {
            assert(path.subrange(n - k, n)[k - m - 1] == tail[k - m - 1]);
        }
        assert forall|i: int| slash < i < n implies path[i] != '/' by {
            assert(path.subrange(n - k, n)[i - (n - k)] == tail[i - (n - k)]);
            assert(path[i] == other[i - slash - 1]);
        }
        assert forall|i: int| dir.len() < i < n implies path[i] != '/' by {
            assert(path[i] == name[i - dir.len() - 1]);
        }
        assert(path[dir.len() as int] == '/');
        assert(slash == dir.len());
        assert(name =~= path.skip(slash + 1));
        assert forall|i: int| 0 <= i < m implies other[i] == name[i] by {
            assert(path.subrange(n - k, n)[k - m + i] == tail[k - m + i]);
        }
        assert(other =~= name);
    }
}

/// By the place of a worktree, its owner is the one who is recorded under its name.
proof fn lemma_fitting(
    sessions: Seq<WorktreeSessionView>,
    root: Seq<char>,
    name: Seq<char>,
    fit: Fit,
)
    requires
        lacks(name, '/'),
        forall|i: int| 0 <= i < sessions.len() ==> lacks(#[trigger] sessions[i].worktree_name, '/'),
    ensures
        fit is Place ==> fitting_owner(sessions, root, worktree_path_of(root, name), fit)
            == owner_in(sessions, name),
        owner_in(sessions, name) is None ==> fitting_owner(
            sessions,
            root,
            worktree_path_of(root, name),
            fit,
        ) is None,
    decreases sessions.len(),
{
    if sessions.len() > 0 {
        lemma_fits(root, name, sessions[0].worktree_name, fit);
        assert forall|i: int| 0 <= i < sessions.drop_first().len() implies lacks(
            #[trigger] sessions.drop_first()[i].worktree_name,
            '/',
        ) by {
            assert(lacks(sessions[i + 1].worktree_name, '/'));
        }
        lemma_fitting(sessions.drop_first(), root, name, fit);
    }
}

/// The list shows the owner of a worktree that the server made: the session that is
/// recorded under the name of the worktree, and no other. Here the names are those of
/// single directories.
pub proof fn law_worktrees_are_shown_with_their_owner(
    root: Seq<char>,
    name: Seq<char>,
    sessions: Seq<WorktreeSessionView>,
)
    requires
        lacks(name, '/'),
        forall|i: int| 0 <= i < sessions.len() ==> lacks(#[trigger] sessions[i].worktree_name, '/'),
    ensures
        owner_at(sessions, root, worktree_path_of(root, name)) == owner_in(sessions, name),
{
    lemma_fitting(sessions, root, name, Fit::Place);
    lemma_fitting(sessions, root, name, Fit::Ending);
    lemma_fitting(sessions, root, name, Fit::Name);
}

/// Whatever the names are, the worktree that a record is of is shown with the owner in
/// that record, where no earlier record is of a worktree at the same place.
pub proof fn law_recorded_places_are_shown_with_their_owner(
    root: Seq<char>,
    sessions: Seq<WorktreeSessionView>,
    k: int,
)
    requires
        0 <= k < sessions.len(),
        forall|i: int|
            0 <= i < k ==> worktree_path_of(root, (#[trigger] sessions[i]).worktree_name)
                != worktree_path_of(root, sessions[k].worktree_name),
    ensures
        owner_at(sessions, root, worktree_path_of(root, sessions[k].worktree_name)) == Some(
            sessions[k].session_id,
        ),
{
    let path = worktree_path_of(root, sessions[k].worktree_name);
    lemma_first_at_place(sessions, root, path, k);
}

/// The first record of a place is the one that is found.
proof fn lemma_first_at_place(
    sessions: Seq<WorktreeSessionView>,
    root: Seq<char>,
    path: Seq<char>,
    k: int,
)
    requires
        0 <= k < sessions.len(),
        worktree_path_of(root, sessions[k].worktree_name) == path,
        forall|i: int|
            0 <= i < k ==> worktree_path_of(root, (#[trigger] sessions[i]).worktree_name) != path,
    ensures
        fitting_owner(sessions, root, path, Fit::Place) == Some(sessions[k].session_id),
    decreases k,
{
    if k > 0 {
        let rest = sessions.drop_first();
        assert(worktree_path_of(root, sessions[0].worktree_name) != path);
        assert forall|i: int| 0 <= i < k - 1 implies worktree_path_of(
            root,
            (#[trigger] rest[i]).worktree_name,
        ) != path by {
            assert(rest[i] == sessions[i + 1]);
        }
        lemma_first_at_place(rest, root, path, k - 1);
    }
}

/// An owner is shown only by a record whose name is made of whole components of the
/// path, or whose worktree is at the path itself.
pub proof fn law_owners_are_found_by_whole_components(
    root: Seq<char>,
    path: Seq<char>,
    sessions: Seq<WorktreeSessionView>,
)
    ensures
        owner_at(sessions, root, path) matches Some(owner) ==> exists|i: int|
            0 <= i < sessions.len() && (#[trigger] sessions[i]).session_id == owner && (
            worktree_path_of(root, sessions[i].worktree_name) == path || closes_with(
                path,
                "/"@ + sessions[i].worktree_name,
            )),
{
    lemma_fitting_record(sessions, root, path, Fit::Place);
    lemma_fitting_record(sessions, root, path, Fit::Ending);
    lemma_fitting_record(sessions, root, path, Fit::Name);
    assert forall|name: Seq<char>| closes_with(
        path,
        "/.worktrees/"@ + name,
    ) implies #[trigger] closes_with(path, "/"@ + name) by {
        reveal_strlit("/.worktrees/");
        reveal_strlit("/");
        let (long, short) = ("/.worktrees/"@ + name, "/"@ + name);
        let n = path.len() as int;
        assert forall|i: int| 0 <= i < short.len() implies path[n - short.len() + i]
            == short[i] by {
            assert(path.subrange(n - long.len(), n)[11 + i] == long[11 + i]);
        }
        assert(path.subrange(n - short.len(), n) =~= short);
    }
}

/// The owner that is found is that of a record whose name fits.
proof fn lemma_fitting_record(
    sessions: Seq<WorktreeSessionView>,
    root: Seq<char>,
    path: Seq<char>,
    fit: Fit,
)
    ensures
        fitting_owner(sessions, root, path, fit) matches Some(owner) ==> exists|i: int|
            0 <= i < sessions.len() && (#[trigger] sessions[i]).session_id == owner && fits(
                root,
                path,
                sessions[i].worktree_name,
                fit,
            ),
    decreases sessions.len(),
{
    if sessions.len() > 0 && !fits(root, path, sessions[0].worktree_name, fit) {
        let rest = sessions.drop_first();
        lemma_fitting_record(rest, root, path, fit);
        if let Some(owner) = fitting_owner(rest, root, path, fit) {
            let i = choose|i: int|
                0 <= i < rest.len() && (#[trigger] rest[i]).session_id == owner && fits(
                    root,
                    path,
                    rest[i].worktree_name,
                    fit,
                );
            assert(sessions[i + 1] == rest[i]);
        }
    }
}

/// The first setting that counts.
pub open spec fn first_given(settings: Seq<Option<Seq<char>>>, default: Seq<char>) -> Seq<char>
    decreases settings.len(),
{
    if settings.len() == 0 {
        default
    } else if given(settings[0]) {
        settings[0]->0
    } else {
        first_given(settings.drop_first(), default)
    }
}

/// The level of the log is the first that is given: on the command line, in the
/// variable of this program, in the usual variable; and `warn` where none is.
pub proof fn law_log_level_goes_by_priority(
    cli: Option<Seq<char>>,
    own: Option<Seq<char>>,
    usual: Option<Seq<char>>,
)
    ensures
        log_level_flow(cli, seq![ReplyView::Variable(own), ReplyView::Variable(usual)], 0)
            matches Ok((level, _)) && level == first_given(seq![cli, own, usual], "warn"@),
{
    reveal_with_fuel(first_given, 4);
    let settings = seq![cli, own, usual];
    assert(settings.drop_first() =~= seq![own, usual]);
    assert(settings.drop_first().drop_first() =~= seq![usual]);
    assert(settings.drop_first().drop_first().drop_first() =~= seq![]);
}

/// The directory of the log is the one that is given, or a cache directory under the
/// home directory, or the current directory.
pub proof fn law_log_directory_goes_by_priority(own: Option<Seq<char>>, home: Option<Seq<char>>)
    ensures
        log_dir_flow(seq![ReplyView::Variable(own), ReplyView::Variable(home)], 0) matches Ok((
            dir,
            _,
        )) && dir == if given(own) {
            own->0
        } else if given(home) {
            joined_path(joined_path(home->0, ".cache"@), "git-workflow-mcp"@)
        } else {
            "."@
        },
{
}

/// The level of the log is asked of `GIT_WORKFLOW_LOG_LEVEL` and then of `RUST_LOG`, and
/// its directory of `GIT_WORKFLOW_LOG_DIR` and then of `HOME`; nothing more is asked once
/// something is given.
pub proof fn law_settings_are_asked_for(
    cli: Option<Seq<char>>,
    own: Option<Seq<char>>,
    replies: Seq<ReplyView>,
    at: nat,
)
    requires
        at + 1 == replies.len(),
        replies[at as int] == ReplyView::Variable(own),
    ensures
        cli is Some && cli->0.len() > 0 ==> log_level_flow(cli, replies, at + 1) == Ok::<
            _,
            HaltView<DomainErrorView>,
        >((cli->0, at + 1)),
        cli is None || cli->0.len() == 0 ==> {
            &&& log_level_flow(cli, replies, at + 1) matches Err(HaltView::Ask(a)) && a
                == (ActionView::ReadVariable { name: "GIT_WORKFLOW_LOG_LEVEL"@ })
            &&& if own is Some && own->0.len() > 0 {
                log_level_flow(cli, replies, at) matches Ok((level, n)) && level == own->0 && n
                    == at + 1
            } else {
                log_level_flow(cli, replies, at) matches Err(HaltView::Ask(a)) && a
                    == (ActionView::ReadVariable { name: "RUST_LOG"@ })
            }
        },
        log_dir_flow(replies, at + 1) matches Err(HaltView::Ask(a)) && a
            == (ActionView::ReadVariable { name: "GIT_WORKFLOW_LOG_DIR"@ }),
        if own is Some && own->0.len() > 0 {
            log_dir_flow(replies, at) matches Ok((dir, n)) && dir == own->0 && n == at + 1
        } else {
            log_dir_flow(replies, at) matches Err(HaltView::Ask(a)) && a
                == (ActionView::ReadVariable { name: "HOME"@ })
        },
{
}

/// The names of the files of the log.
pub proof fn law_log_files_are_named()
    ensures
        FILE_PREFIX@ == "mcp"@,
        FILE_SUFFIX@ == "log"@,
        PANIC_LOG_NAME@ == "panic.log"@,
{
}

/// The time in the log of panics is the seconds of the clock, or nothing where the clock
/// has none; the message and the backtrace follow it.
pub proof fn law_panics_are_dated(
    seconds: Option<u64>,
    info: Seq<char>,
    backtrace: Seq<char>,
)
    ensures
        panic_record(seconds, info, backtrace) == "["@ + timestamp(seconds) + "] panic: "@ + info
            + "\n"@ + backtrace + "\n"@,
        timestamp(seconds) == if seconds is Some {
            "epoch_s="@ + decimal_of(seconds->0 as nat)
        } else {
            seq![]
        },
{
}

} // verus!
