//! What holds of the reading of what git prints: what git writes in its formats is
//! what is read from them.

use vstd::prelude::*;
use crate::domain::worktree::{LogEntryView, RemoteEntryView, WorktreeView};
use crate::infra::git::inspect::{counts_in, parents_in, second_fields, subject_in, target_in};
use crate::infra::git::remote::{
    in_refspec, in_remote_name, is_refspec, is_remote_name, remote_in, remotes_in,
};
use crate::infra::git::working::entries_in;
use crate::infra::git::worktree::{list_line, list_state, records, worktrees_in, ListState};
use crate::interface::mcp::tools::cut_diff;
use crate::text::{
    before, begins_with, behind, behind_all, decimal_of, filled_lines, is_number, is_space, joined,
    lemma_decimal_spells, lemma_decimal_value, lemma_last_position, lemma_position,
    lemma_position_found, lines_of, parted, position, second_field, trimmed, without_cr,
};

verus! {

// ---------------------------------------------------------------------------
// Texts
// ---------------------------------------------------------------------------

/// Whether `c` is not in `s`.
pub open spec fn lacks(s: Seq<char>, c: char) -> bool {
    forall|i: int| 0 <= i < s.len() ==> #[trigger] s[i] != c
}

/// A text that lacks a character and one behind it are parted at that character.
proof fn lemma_parted(a: Seq<char>, c: char, b: Seq<char>)
    requires
        lacks(a, c),
    ensures
        parted(a + seq![c] + b, c) == Some((a, b)),
        before(a + seq![c] + b, c) == a,
{
    let s = a + seq![c] + b;
    lemma_position(s, c, a.len() as int);
    assert(s.take(a.len() as int) =~= a);
    assert(s.skip(a.len() as int + 1) =~= b);
}

/// A text without the character is not parted.
proof fn lemma_before(a: Seq<char>, c: char)
    requires
        lacks(a, c),
    ensures
        parted(a, c) is None,
        before(a, c) == a,
{
    lemma_position(a, c, a.len() as int);
    assert(a.take(a.len() as int) =~= a);
}

/// A line that ends in a line feed comes before the lines behind it.
proof fn lemma_lines_front(line: Seq<char>, rest: Seq<char>)
    requires
        lacks(line, '\n'),
    ensures
        lines_of(line + seq!['\n'] + rest) == seq![without_cr(line)] + lines_of(rest),
{
    let s = line + seq!['\n'] + rest;
    lemma_position(s, '\n', line.len() as int);
    assert(s.take(line.len() as int) =~= line);
    assert(s.skip(line.len() as int + 1) =~= rest);
}

/// Joining from the front.
proof fn lemma_joined_front(parts: Seq<Seq<char>>, sep: Seq<char>)
    requires
        parts.len() > 1,
    ensures
        joined(parts, sep) == parts[0] + sep + joined(parts.drop_first(), sep),
    decreases parts.len(),
{
    let rest = parts.drop_first();
    if parts.len() == 2 {
        assert(parts.drop_last() =~= seq![parts[0]]);
        assert(joined(parts.drop_last(), sep) == parts[0]);
        assert(joined(rest, sep) == parts[1]);
    } else {
        lemma_joined_front(parts.drop_last(), sep);
        assert(parts.drop_last().drop_first() =~= rest.drop_last());
        assert(parts[0] + sep + joined(rest.drop_last(), sep) + sep + parts.last() =~= parts[0]
            + sep + (joined(rest.drop_last(), sep) + sep + parts.last()));
    }
}

/// Lines that can be told apart when they are joined: none holds a line feed or ends
/// in a carriage return, and the last is not empty.
pub open spec fn plain_lines(lines: Seq<Seq<char>>) -> bool {
    &&& forall|i: int|
        0 <= i < lines.len() ==> lacks(#[trigger] lines[i], '\n') && without_cr(lines[i])
            == lines[i]
    &&& lines.len() > 0 ==> lines.last().len() > 0
}

/// The lines of joined lines are these lines.
pub proof fn law_joined_lines_are_read_back(lines: Seq<Seq<char>>)
    requires
        plain_lines(lines),
    ensures
        lines_of(joined(lines, "\n"@)) == lines,
    decreases lines.len(),
{
    reveal_strlit("\n");
    assert("\n"@ =~= seq!['\n']);
    if lines.len() == 1 {
        lemma_position(lines[0], '\n', lines[0].len() as int);
        assert(lines_of(lines[0]) =~= lines);
    } else if lines.len() > 1 {
        let rest = lines.drop_first();
        assert(plain_lines(rest)) by {
            assert forall|i: int| 0 <= i < rest.len() implies lacks(#[trigger] rest[i], '\n')
                && without_cr(rest[i]) == rest[i] by {
                assert(rest[i] == lines[i + 1]);
            }
        }
        law_joined_lines_are_read_back(rest);
        lemma_joined_front(lines, "\n"@);
        lemma_lines_front(lines[0], joined(rest, "\n"@));
        assert(seq![lines[0]] + rest =~= lines);
    }
}

/// Where no line is empty, all are kept.
proof fn lemma_all_filled(lines: Seq<Seq<char>>)
    requires
        forall|i: int| 0 <= i < lines.len() ==> (#[trigger] lines[i]).len() > 0,
    ensures
        lines.filter(|l: Seq<char>| l.len() > 0) == lines,
    decreases lines.len(),
{
    reveal(Seq::filter);
    if lines.len() > 0 {
        lemma_all_filled(lines.drop_last());
        assert(lines.drop_last().push(lines.last()) =~= lines);
    } else {
        assert(lines.filter(|l: Seq<char>| l.len() > 0) =~= lines);
    }
}

/// Lines that are not empty are read back as the lines that are not empty.
proof fn lemma_filled_lines(lines: Seq<Seq<char>>)
    requires
        plain_lines(lines),
        forall|i: int| 0 <= i < lines.len() ==> (#[trigger] lines[i]).len() > 0,
    ensures
        filled_lines(joined(lines, "\n"@)) == lines,
{
    law_joined_lines_are_read_back(lines);
    lemma_all_filled(lines);
}

// ---------------------------------------------------------------------------
// Numbers
// ---------------------------------------------------------------------------

/// Digits have no white space around them.
proof fn lemma_trimmed_number(s: Seq<char>)
    requires
        is_number(s),
    ensures
        trimmed(s) == s,
        lacks(s, '\t'),
{
    assert('0' <= s[0] <= '9');
    assert('0' <= s[s.len() - 1] <= '9');
    assert forall|i: int| 0 <= i < s.len() implies #[trigger] s[i] != '\t' by {
        assert('0' <= s[i] <= '9');
    }
}

/// The two counts that git prints with a tab between them are read as they are
/// written, and none is taken for the other.
pub proof fn law_counts_are_read_back(behind: u32, ahead: u32)
    ensures
        counts_in(decimal_of(behind as nat) + seq!['\t'] + decimal_of(ahead as nat)) == Some(
            (behind, ahead),
        ),
{
    let left = decimal_of(behind as nat);
    let right = decimal_of(ahead as nat);
    lemma_decimal_value(behind as nat);
    lemma_decimal_value(ahead as nat);
    lemma_trimmed_number(left);
    lemma_trimmed_number(right);
    lemma_parted(left, '\t', right);
    lemma_decimal_spells(behind);
    lemma_decimal_spells(ahead);
}

// ---------------------------------------------------------------------------
// Commits
// ---------------------------------------------------------------------------

/// The line of a commit.
pub open spec fn commit_line(entry: LogEntryView, sep: char) -> Seq<char> {
    entry.hash + seq![sep] + entry.message
}

/// A commit whose line can be told apart: the hash lacks the separator, and the line
/// is one line.
pub open spec fn plain_entry(entry: LogEntryView, sep: char) -> bool {
    &&& lacks(entry.hash, sep)
    &&& lacks(commit_line(entry, sep), '\n')
    &&& without_cr(commit_line(entry, sep)) == commit_line(entry, sep)
}

/// The commits whose lines git prints are the commits that are read.
pub proof fn law_commits_are_read_back(entries: Seq<LogEntryView>, sep: char)
    requires
        forall|i: int| 0 <= i < entries.len() ==> plain_entry(#[trigger] entries[i], sep),
    ensures
        entries_in(
            joined(entries.map_values(|e: LogEntryView| commit_line(e, sep)), "\n"@),
            sep,
        ) == entries,
{
    let lines = entries.map_values(|e: LogEntryView| commit_line(e, sep));
    assert forall|i: int| 0 <= i < lines.len() implies lacks(#[trigger] lines[i], '\n')
        && without_cr(lines[i]) == lines[i] && lines[i].len() > 0 by {
        assert(plain_entry(entries[i], sep));
    }
    lemma_filled_lines(lines);
    let read = entries_in(joined(lines, "\n"@), sep);
    assert forall|i: int| 0 <= i < entries.len() implies #[trigger] read[i] == entries[i] by {
        assert(plain_entry(entries[i], sep));
        lemma_parted(entries[i].hash, sep, entries[i].message);
        assert(lines[i] == commit_line(entries[i], sep));
    }
    assert(read =~= entries);
}

// ---------------------------------------------------------------------------
// Walks
// ---------------------------------------------------------------------------

/// The line of a commit in a walk: the hash, the parents and the subject, with tabs
/// between them.
pub open spec fn walk_line(hash: Seq<char>, parents: Seq<char>, subject: Seq<char>) -> Seq<char> {
    hash + seq!['\t'] + (parents + seq!['\t'] + subject)
}

/// The parts of the line of a walk are read as they are written, tabs in the subject
/// and all.
pub proof fn law_walk_lines_are_read_back(
    hash: Seq<char>,
    parents: Seq<char>,
    subject: Seq<char>,
)
    requires
        lacks(hash, '\t'),
        lacks(parents, '\t'),
    ensures
        before(walk_line(hash, parents, subject), '\t') == hash,
        second_field(walk_line(hash, parents, subject), '\t') == Some(parents),
        subject_in(walk_line(hash, parents, subject)) == subject,
{
    lemma_parted(hash, '\t', parents + seq!['\t'] + subject);
    lemma_parted(parents, '\t', subject);
}

/// The walk ends at the line that is as many lines behind the first as steps were asked
/// for, it is linear if and only if no line names two parents, and it fails if and only
/// if there are too few lines.
pub proof fn law_walks_end_where_asked(lines: Seq<Seq<char>>, steps: u32)
    ensures
        target_in(lines, steps) is Ok <==> lines.len() > steps,
        target_in(lines, steps) matches Ok(target) ==> {
            &&& target.target_hash == before(lines[steps as int], '\t')
            &&& !target.linear <==> exists|i: int|
                0 <= i < lines.len() && parents_in(#[trigger] lines[i]) >= 2
        },
{
}

// ---------------------------------------------------------------------------
// Remotes
// ---------------------------------------------------------------------------

/// The line of a remote.
pub open spec fn remote_line(entry: RemoteEntryView) -> Seq<char> {
    entry.name + seq!['\t'] + (entry.url + seq![' '] + (seq!['('] + entry.direction + seq![')']))
}

/// A remote whose line can be told apart.
pub open spec fn plain_remote(entry: RemoteEntryView) -> bool {
    &&& lacks(entry.name, '\t')
    &&& entry.direction == "fetch"@ || entry.direction == "push"@
    &&& lacks(remote_line(entry), '\n')
}

/// A remote is read as its line is written.
proof fn lemma_remote(entry: RemoteEntryView)
    requires
        plain_remote(entry),
    ensures
        remote_in(remote_line(entry)) == Some(entry),
{
    let bracketed = seq!['('] + entry.direction + seq![')'];
    let rest = entry.url + seq![' '] + bracketed;
    reveal_strlit("fetch");
    reveal_strlit("push");
    reveal_strlit("(fetch)");
    reveal_strlit("(push)");
    assert(bracketed =~= "(fetch)"@ || bracketed =~= "(push)"@);
    lemma_parted(entry.name, '\t', rest);
    let n = entry.url.len() as int;
    assert forall|j: int| n < j < rest.len() implies rest[j] != ' ' by {
        if n + 1 < j < rest.len() - 1 {
            assert(rest[j] == entry.direction[j - n - 2]);
        }
    }
    lemma_last_position(rest, ' ', n);
    assert(rest.take(n) =~= entry.url);
    assert(rest.skip(n + 1) =~= bracketed);
}

/// Whatever git prints, the direction of each remote that is read is `fetch` or `push`.
pub proof fn law_directions_are_fetch_or_push(lines: Seq<Seq<char>>, i: int)
    requires
        0 <= i < remotes_in(lines).len(),
    ensures
        remotes_in(lines)[i].direction == "fetch"@ || remotes_in(lines)[i].direction == "push"@,
    decreases lines.len(),
{
    if lines.len() > 0 && i < remotes_in(lines.drop_last()).len() {
        law_directions_are_fetch_or_push(lines.drop_last(), i);
    }
}

/// Remotes are read as their lines are written.
proof fn lemma_remotes(entries: Seq<RemoteEntryView>)
    requires
        forall|i: int| 0 <= i < entries.len() ==> plain_remote(#[trigger] entries[i]),
    ensures
        remotes_in(entries.map_values(|e: RemoteEntryView| remote_line(e))) == entries,
    decreases entries.len(),
{
    let lines = entries.map_values(|e: RemoteEntryView| remote_line(e));
    if entries.len() > 0 {
        lemma_remotes(entries.drop_last());
        lemma_remote(entries.last());
        assert(lines.drop_last() =~= entries.drop_last().map_values(
            |e: RemoteEntryView| remote_line(e),
        ));
        assert(entries.drop_last().push(entries.last()) =~= entries);
    } else {
        assert(remotes_in(lines) =~= entries);
    }
}

/// The remotes whose lines git prints are the remotes that are read.
pub proof fn law_remotes_are_read_back(entries: Seq<RemoteEntryView>)
    requires
        forall|i: int| 0 <= i < entries.len() ==> plain_remote(#[trigger] entries[i]),
    ensures
        remotes_in(
            lines_of(joined(entries.map_values(|e: RemoteEntryView| remote_line(e)), "\n"@)),
        ) == entries,
{
    let lines = entries.map_values(|e: RemoteEntryView| remote_line(e));
    assert forall|i: int| 0 <= i < lines.len() implies lacks(#[trigger] lines[i], '\n')
        && without_cr(lines[i]) == lines[i] && lines[i].len() > 0 by {
        assert(plain_remote(entries[i]));
        assert(lines[i].last() == ')');
    }
    law_joined_lines_are_read_back(lines);
    lemma_remotes(entries);
}

/// The names that are accepted as remotes and the texts that are accepted as refspecs
/// hold no white space, no quotes and nothing that a shell gives a meaning to but `*`
/// and `~`; and every remote's name would do as a refspec.
pub proof fn law_accepted_names_are_plain(s: Seq<char>, i: int)
    requires
        is_refspec(s),
        0 <= i < s.len(),
    ensures
        !is_space(s[i]),
        s[i] != ';' && s[i] != '|' && s[i] != '&' && s[i] != '$' && s[i] != '`',
        s[i] != '"' && s[i] != '\'' && s[i] != '\\' && s[i] != '#' && s[i] != '!',
        s[i] != '(' && s[i] != ')' && s[i] != '<' && s[i] != '>' && s[i] != '\n',
{
    assert(in_refspec(s[i]));
}

/// Every remote's name would do as a refspec.
pub proof fn law_remote_names_are_refspecs(s: Seq<char>)
    ensures
        is_remote_name(s) ==> is_refspec(s),
{
    if is_remote_name(s) {
        assert forall|i: int| 0 <= i < s.len() implies in_refspec(#[trigger] s[i]) by {
            assert(in_remote_name(s[i]));
        }
    }
}

// ---------------------------------------------------------------------------
// Tags
// ---------------------------------------------------------------------------

/// The line of a ref on a remote.
pub open spec fn ref_line(hash: Seq<char>, name: Seq<char>) -> Seq<char> {
    hash + seq!['\t'] + name
}

/// The refs whose lines git prints, with any hashes, are the refs that are read.
pub proof fn law_refs_are_read_back(hash: Seq<char>, names: Seq<Seq<char>>)
    requires
        lacks(hash, '\t'),
        forall|i: int| 0 <= i < names.len() ==> lacks(#[trigger] names[i], '\t'),
    ensures
        second_fields(names.map_values(|name: Seq<char>| ref_line(hash, name))) == names,
    decreases names.len(),
{
    let lines = names.map_values(|name: Seq<char>| ref_line(hash, name));
    if names.len() > 0 {
        law_refs_are_read_back(hash, names.drop_last());
        assert(lines.drop_last() =~= names.drop_last().map_values(
            |name: Seq<char>| ref_line(hash, name),
        ));
        lemma_parted(hash, '\t', names.last());
        lemma_before(names.last(), '\t');
        assert(names.drop_last().push(names.last()) =~= names);
    } else {
        assert(second_fields(lines) =~= names);
    }
}

// ---------------------------------------------------------------------------
// Worktrees
// ---------------------------------------------------------------------------

/// The lines of a worktree in porcelain format; `head` is the commit that is checked
/// out.
pub open spec fn porcelain_record(worktree: WorktreeView, head: Seq<char>) -> Seq<Seq<char>> {
    let first = "worktree "@ + worktree.path;
    if worktree.is_bare {
        seq![first, "bare"@, seq![]]
    } else {
        let third = match worktree.branch {
            Some(branch) => "branch "@ + ("refs/heads/"@ + branch),
            None => "detached"@,
        };
        seq![first, "HEAD "@ + head, third, seq![]]
    }
}

/// The lines of worktrees in porcelain format.
pub open spec fn porcelain(worktrees: Seq<WorktreeView>, heads: Seq<Seq<char>>) -> Seq<Seq<char>>
    decreases worktrees.len(),
{
    if worktrees.len() == 0 {
        seq![]
    } else {
        porcelain(worktrees.drop_last(), heads.drop_last()) + porcelain_record(
            worktrees.last(),
            heads.last(),
        )
    }
}

/// A text that is all on one line.
pub open spec fn on_one_line(s: Seq<char>) -> bool {
    lacks(s, '\n') && without_cr(s) == s
}

/// A worktree whose lines can be told apart. The bare repository has no branch.
pub open spec fn plain_worktree(worktree: WorktreeView) -> bool {
    &&& worktree.is_bare ==> worktree.branch is None
    &&& on_one_line(worktree.path)
    &&& worktree.branch matches Some(branch) ==> on_one_line(branch) && !begins_with(
        branch,
        "refs/heads/"@,
    )
}

/// What stands behind a start.
proof fn lemma_behind(start: Seq<char>, rest: Seq<char>)
    ensures
        behind(start + rest, start) == Some(rest),
{
    assert((start + rest).subrange(0, start.len() as int) =~= start);
    assert((start + rest).skip(start.len() as int) =~= rest);
}

/// A text with another first character has no such start.
proof fn lemma_not_behind(s: Seq<char>, start: Seq<char>)
    requires
        start.len() > 0,
        s.len() < start.len() || s[0] != start[0],
    ensures
        behind(s, start) is None,
{
    if s.len() >= start.len() {
        assert(s.subrange(0, start.len() as int)[0] == s[0]);
    }
}

/// What each line of a record does.
proof fn lemma_record_lines(st: ListState, worktree: WorktreeView, head: Seq<char>)
    requires
        plain_worktree(worktree),
        st.path is None ==> st.branch is None && !st.bare,
    ensures
        ({
            let ls = porcelain_record(worktree, head);
            let opened = list_line(st, ls[0]);
            let st1 = list_line(opened, ls[1]);
            let st2 = list_line(st1, ls[2]);
            let end = ListState {
                complete: records(st),
                path: Some(worktree.path),
                branch: worktree.branch,
                bare: worktree.is_bare,
            };
            if worktree.is_bare {
                st2 == end
            } else {
                list_line(st2, ls[3]) == end
            }
        }),
{
    reveal_strlit("worktree ");
    reveal_strlit("branch ");
    reveal_strlit("refs/heads/");
    reveal_strlit("bare");
    reveal_strlit("HEAD ");
    reveal_strlit("detached");
    let ls = porcelain_record(worktree, head);
    lemma_behind("worktree "@, worktree.path);
    lemma_not_behind(seq![], "worktree "@);
    lemma_not_behind(seq![], "branch "@);
    assert(Seq::<char>::empty() != "bare"@);
    if worktree.is_bare {
        lemma_not_behind("bare"@, "worktree "@);
        lemma_not_behind("bare"@, "branch "@);
    } else {
        assert(("HEAD "@ + head)[0] == 'H');
        lemma_not_behind("HEAD "@ + head, "worktree "@);
        lemma_not_behind("HEAD "@ + head, "branch "@);
        assert("HEAD "@ + head != "bare"@);
        match worktree.branch {
            Some(branch) => {
                let name = "refs/heads/"@ + branch;
                assert(("branch "@ + name)[0] == 'b');
                lemma_not_behind("branch "@ + name, "worktree "@);
                lemma_behind("branch "@, name);
                lemma_behind("refs/heads/"@, branch);
                reveal_with_fuel(behind_all, 2);
            },
            None => {
                assert("detached"@[0] == 'd');
                lemma_not_behind("detached"@, "worktree "@);
                lemma_not_behind("detached"@, "branch "@);
                assert("detached"@ != "bare"@);
            },
        }
    }
}

/// The lines that are there already come before the others.
proof fn lemma_list_state_push(lines: Seq<Seq<char>>, line: Seq<char>)
    ensures
        list_state(lines.push(line)) == list_line(list_state(lines), line),
{
    assert(lines.push(line).drop_last() =~= lines);
}

/// The records of a list in porcelain format, and how the list ends.
proof fn lemma_porcelain(worktrees: Seq<WorktreeView>, heads: Seq<Seq<char>>)
    requires
        worktrees.len() == heads.len(),
        forall|i: int| 0 <= i < worktrees.len() ==> plain_worktree(#[trigger] worktrees[i]),
        forall|i: int| 0 <= i < heads.len() ==> on_one_line(#[trigger] heads[i]),
    ensures
        records(list_state(porcelain(worktrees, heads))) == worktrees,
        ({
            let st = list_state(porcelain(worktrees, heads));
            st.path is None ==> st.branch is None && !st.bare
        }),
        forall|i: int|
            0 <= i < porcelain(worktrees, heads).len() ==> on_one_line(
                #[trigger] porcelain(worktrees, heads)[i],
            ),
        worktrees.len() > 0 ==> {
            let ls = porcelain(worktrees, heads);
            ls.len() > 1 && ls.last().len() == 0 && ls[ls.len() - 2].len() > 0
        },
    decreases worktrees.len(),
{
    if worktrees.len() == 0 {
        assert(records(list_state(porcelain(worktrees, heads))) =~= worktrees);
    } else {
        let (w, h) = (worktrees.last(), heads.last());
        let earlier = porcelain(worktrees.drop_last(), heads.drop_last());
        let ls = porcelain_record(w, h);
        lemma_porcelain(worktrees.drop_last(), heads.drop_last());
        let st = list_state(earlier);
        lemma_record_lines(st, w, h);
        lemma_list_state_push(earlier, ls[0]);
        let one = earlier.push(ls[0]);
        lemma_list_state_push(one, ls[1]);
        let two = one.push(ls[1]);
        lemma_list_state_push(two, ls[2]);
        let three = two.push(ls[2]);
        if w.is_bare {
            assert(earlier + ls =~= three);
        } else {
            lemma_list_state_push(three, ls[3]);
            assert(earlier + ls =~= three.push(ls[3]));
        }
        assert(worktrees.drop_last().push(w) =~= worktrees);
        lemma_record_is_plain(w, h);
        let all = earlier + ls;
        assert forall|i: int| 0 <= i < all.len() implies on_one_line(#[trigger] all[i]) by {
            if i >= earlier.len() {
                assert(all[i] == ls[i - earlier.len()]);
            }
        }
        assert(all.last() == ls.last());
        assert(all[all.len() - 2] == ls[ls.len() - 2]);
    }
}

/// Each line of a record is one line, and the last but one is not empty.
proof fn lemma_record_is_plain(worktree: WorktreeView, head: Seq<char>)
    requires
        plain_worktree(worktree),
        on_one_line(head),
    ensures
        ({
            let ls = porcelain_record(worktree, head);
            &&& forall|i: int| 0 <= i < ls.len() ==> on_one_line(#[trigger] ls[i])
            &&& ls.len() > 1 && ls.last().len() == 0 && ls[ls.len() - 2].len() > 0
        }),
{
    reveal_strlit("worktree ");
    reveal_strlit("branch ");
    reveal_strlit("refs/heads/");
    reveal_strlit("bare");
    reveal_strlit("HEAD ");
    reveal_strlit("detached");
    lemma_on_one_line("worktree "@, worktree.path);
    lemma_on_one_line("HEAD "@, head);
    if let Some(branch) = worktree.branch {
        lemma_on_one_line("refs/heads/"@, branch);
        lemma_on_one_line("branch "@, "refs/heads/"@ + branch);
    }
}

/// Two texts on one line are on one line together.
proof fn lemma_on_one_line(a: Seq<char>, b: Seq<char>)
    requires
        on_one_line(a),
        on_one_line(b),
    ensures
        on_one_line(a + b),
{
    let s = a + b;
    assert forall|i: int| 0 <= i < s.len() implies #[trigger] s[i] != '\n' by {
        if i < a.len() {
            assert(s[i] == a[i]);
        } else {
            assert(s[i] == b[i - a.len()]);
        }
    }
    if b.len() > 0 {
        assert(s.last() == b.last());
        assert(b.last() != '\r') by {
            if b.last() == '\r' {
                assert(without_cr(b).len() == b.len() - 1);
            }
        }
    } else {
        assert(s =~= a);
    }
}

/// The worktrees that git lists in porcelain format are the worktrees that are read:
/// with their paths, with their branches where they have one checked out, and with the
/// mark of the bare repository. The empty line at the end of the list may be missing.
pub proof fn law_worktrees_are_read_back(worktrees: Seq<WorktreeView>, heads: Seq<Seq<char>>)
    requires
        worktrees.len() == heads.len(),
        worktrees.len() > 0,
        forall|i: int| 0 <= i < worktrees.len() ==> plain_worktree(#[trigger] worktrees[i]),
        forall|i: int| 0 <= i < heads.len() ==> on_one_line(#[trigger] heads[i]),
    ensures
        worktrees_in(joined(porcelain(worktrees, heads).drop_last(), "\n"@)) == worktrees,
{
    let all = porcelain(worktrees, heads);
    lemma_porcelain(worktrees, heads);
    let lines = all.drop_last();
    assert(plain_lines(lines)) by {
        assert forall|i: int| 0 <= i < lines.len() implies lacks(#[trigger] lines[i], '\n')
            && without_cr(lines[i]) == lines[i] by {
            assert(on_one_line(all[i]));
        }
    }
    law_joined_lines_are_read_back(lines);
    reveal_strlit("worktree ");
    reveal_strlit("branch ");
    reveal_strlit("bare");
    lemma_not_behind(all.last(), "worktree "@);
    lemma_not_behind(all.last(), "branch "@);
    assert(lines.push(all.last()) =~= all);
    lemma_list_state_push(lines, all.last());
}

// ---------------------------------------------------------------------------
// Long patches
// ---------------------------------------------------------------------------

/// No line holds a line feed.
proof fn lemma_lines_lack_feeds(s: Seq<char>)
    ensures
        forall|i: int| 0 <= i < lines_of(s).len() ==> lacks(#[trigger] lines_of(s)[i], '\n'),
    decreases s.len(),
{
    lemma_position_found(s, '\n');
    let i = position(s, '\n');
    if s.len() > 0 && i < s.len() {
        lemma_lines_lack_feeds(s.skip(i + 1));
        let first = without_cr(s.take(i));
        assert(lacks(first, '\n')) by {
            assert forall|j: int| 0 <= j < first.len() implies #[trigger] first[j] != '\n' by {
                assert(first[j] == s[j]);
            }
        }
        assert forall|k: int| 0 <= k < lines_of(s).len() implies lacks(
            #[trigger] lines_of(s)[k],
            '\n',
        ) by {
            if k > 0 {
                assert(lines_of(s)[k] == lines_of(s.skip(i + 1))[k - 1]);
            }
        }
    }
}

/// Joined lines are as many lines.
proof fn lemma_joined_count(lines: Seq<Seq<char>>)
    requires
        lines.len() > 0,
        forall|i: int| 0 <= i < lines.len() ==> lacks(#[trigger] lines[i], '\n'),
        lines.last().len() > 0,
    ensures
        lines_of(joined(lines, "\n"@)).len() == lines.len(),
    decreases lines.len(),
{
    reveal_strlit("\n");
    assert("\n"@ =~= seq!['\n']);
    if lines.len() == 1 {
        lemma_position(lines[0], '\n', lines[0].len() as int);
    } else {
        let rest = lines.drop_first();
        lemma_joined_count(rest);
        lemma_joined_front(lines, "\n"@);
        lemma_lines_front(lines[0], joined(rest, "\n"@));
    }
}

/// A patch with no more lines than are wanted is shown as it is; of a longer one as
/// many lines as are wanted are shown, and one line that says so.
pub proof fn law_long_patches_are_cut(diff: Seq<char>, max: u32)
    ensures
        lines_of(diff).len() <= max ==> cut_diff(diff, Some(max)) == diff,
        lines_of(diff).len() > max > 0 ==> lines_of(cut_diff(diff, Some(max))).len() == max + 1,
{
    let all = lines_of(diff);
    if all.len() > max > 0 {
        reveal_strlit("\n");
        reveal_strlit("\n... (truncated, showing ");
        reveal_strlit("... (truncated, showing ");
        reveal_strlit("/");
        reveal_strlit(" lines)");
        let start = "... (truncated, showing "@;
        let (shown, total) = (decimal_of(max as nat), decimal_of(all.len()));
        let note = start + shown + "/"@ + total + " lines)"@;
        let lines = all.take(max as int).push(note);
        assert(lines.drop_last() =~= all.take(max as int));
        assert("\n... (truncated, showing "@ =~= "\n"@ + start);
        assert(cut_diff(diff, Some(max)) =~= joined(lines, "\n"@));
        lemma_lines_lack_feeds(diff);
        lemma_decimal_value(max as nat);
        lemma_decimal_value(all.len());
        assert(lacks(note, '\n')) by {
            assert forall|i: int| 0 <= i < note.len() implies #[trigger] note[i] != '\n' by {
                let a = start.len() as int;
                let b = a + shown.len();
                let c = b + 1 + total.len();
                if i < a {
                    assert(note[i] == start[i]);
                } else if i < b {
                    assert(note[i] == shown[i - a]);
                    assert('0' <= shown[i - a] <= '9');
                } else if b < i < c {
                    assert(note[i] == total[i - b - 1]);
                    assert('0' <= total[i - b - 1] <= '9');
                } else if i >= c {
                    assert(note[i] == " lines)"@[i - c]);
                }
            }
        }
        assert forall|i: int| 0 <= i < lines.len() implies lacks(#[trigger] lines[i], '\n') by {
            if i < max {
                assert(lines[i] == all[i]);
            }
        }
        lemma_joined_count(lines);
    }
}

} // verus!
