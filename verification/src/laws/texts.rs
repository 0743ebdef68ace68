//! What holds of the small operations on texts that the readers of what git prints are
//! made of.

use vstd::prelude::*;
use crate::domain::worktree::{RemoteEntryView, WorktreeView};
use crate::infra::git::inspect::{counts_in, parents_in, second_fields, subject_in, target_in};
use crate::infra::git::path::{is_absolute, joined_path, worktree_path_of};
use crate::infra::git::remote::{
    direction_of, in_refspec, in_remote_name, is_refspec, is_remote_name, remote_in, remotes_in,
};
use crate::infra::git::working::entries_in;
use crate::infra::git::worktree::{list_line, list_state, records};
use crate::laws::formats::lacks;
use crate::text::{
    before, begins_with, behind, behind_all, closes_with, decimal_of, filled_lines, holds,
    is_number, is_space, joined, last_position, lemma_decimal_value, lemma_last_position,
    lemma_position, lemma_position_found, lines_of, parted, parted_last, position, second_field,
    spelled_u32, stands_at, trimmed, trimmed_end, trimmed_start, value_of, words_in,
};

verus! {

// ---------------------------------------------------------------------------
// White space
// ---------------------------------------------------------------------------

/// White space is what Unicode calls so.
pub proof fn law_white_space(c: char)
    ensures
        is_space(c) <==> {
            let n = c as int;
            ||| 9 <= n <= 13 || n == 32 || n == 0x85 || n == 0xa0 || n == 0x1680
            ||| 0x2000 <= n <= 0x200a || n == 0x2028 || n == 0x2029 || n == 0x202f
            ||| n == 0x205f || n == 0x3000
        },
{
}

/// Whether a text is nothing but white space.
pub open spec fn is_blank(s: Seq<char>) -> bool {
    forall|i: int| 0 <= i < s.len() ==> is_space(#[trigger] s[i])
}

/// Trimming takes away the white space on both sides, all of it and nothing else.
pub proof fn law_trimming(front: Seq<char>, core: Seq<char>, back: Seq<char>)
    requires
        is_blank(front),
        is_blank(back),
        core.len() > 0 ==> !is_space(core[0]) && !is_space(core.last()),
    ensures
        trimmed(front + core + back) == core,
{
    lemma_start(front, core + back);
    assert(front + core + back =~= front + (core + back));
    if core.len() > 0 {
        assert((core + back)[0] == core[0]);
        lemma_end(core, back);
    } else {
        assert(core + back =~= back + core);
        lemma_start(back, core);
        assert(trimmed_start(core + back) == core);
        assert(trimmed_start(core) == core);
    }
}

/// White space in front is taken away.
proof fn lemma_start(front: Seq<char>, rest: Seq<char>)
    requires
        is_blank(front),
    ensures
        trimmed_start(front + rest) == trimmed_start(rest),
    decreases front.len(),
{
    let s = front + rest;
    if front.len() > 0 {
        assert(is_space(front[0]));
        assert(s[0] == front[0]);
        assert(s.drop_first() =~= front.drop_first() + rest);
        assert forall|i: int| 0 <= i < front.drop_first().len() implies is_space(
            #[trigger] front.drop_first()[i],
        ) by {
            assert(is_space(front[i + 1]));
        }
        lemma_start(front.drop_first(), rest);
    } else {
        assert(s =~= rest);
    }
}

/// White space at the end is taken away.
proof fn lemma_end(core: Seq<char>, back: Seq<char>)
    requires
        is_blank(back),
        core.len() > 0,
        !is_space(core.last()),
    ensures
        trimmed_end(core + back) == core,
    decreases back.len(),
{
    let s = core + back;
    if back.len() > 0 {
        assert(is_space(back[back.len() - 1]));
        assert(s.last() == back.last());
        assert(s.drop_last() =~= core + back.drop_last());
        assert forall|i: int| 0 <= i < back.drop_last().len() implies is_space(
            #[trigger] back.drop_last()[i],
        ) by {
            assert(is_space(back[i]));
        }
        lemma_end(core, back.drop_last());
    } else {
        assert(s =~= core);
    }
}

/// Words are what white space parts: a text without white space is one word, white space
/// has none, and a text has the words on the left and on the right of its white space.
pub proof fn law_words(a: Seq<char>, c: char, b: Seq<char>)
    requires
        is_space(c),
    ensures
        words_in(a + seq![c] + b) == words_in(a) + words_in(b),
        words_in(seq![]) == 0,
        a.len() > 0 && (forall|i: int| 0 <= i < a.len() ==> !is_space(#[trigger] a[i]))
            ==> words_in(a) == 1,
    decreases a.len() + b.len(),
{
    let s = a + seq![c] + b;
    if b.len() > 0 {
        law_words(a, c, b.drop_last());
        assert(s.drop_last() =~= a + seq![c] + b.drop_last());
        assert(s.last() == b.last());
        if b.len() == 1 {
            assert(s[s.len() - 2] == c);
        } else {
            assert(s[s.len() - 2] == b[b.len() - 2]);
        }
    } else {
        assert(s.drop_last() =~= a);
        assert(s.last() == c);
    }
    if a.len() > 0 && (forall|i: int| 0 <= i < a.len() ==> !is_space(#[trigger] a[i])) {
        lemma_one_word(a);
    }
}

/// A text without white space is one word.
proof fn lemma_one_word(a: Seq<char>)
    requires
        a.len() > 0,
        forall|i: int| 0 <= i < a.len() ==> !is_space(#[trigger] a[i]),
    ensures
        words_in(a) == 1,
    decreases a.len(),
{
    assert(!is_space(a[a.len() - 1]));
    if a.len() > 1 {
        assert(!is_space(a[a.len() - 2]));
        assert forall|i: int| 0 <= i < a.drop_last().len() implies !is_space(
            #[trigger] a.drop_last()[i],
        ) by {
            assert(!is_space(a[i]));
        }
        lemma_one_word(a.drop_last());
    } else {
        assert(words_in(a.drop_last()) == 0);
    }
}

// ---------------------------------------------------------------------------
// Lines
// ---------------------------------------------------------------------------

/// A text has the line up to its first line feed, without a carriage return before it,
/// and then the lines behind it. What has no line feed is one line as it is, or none
/// where it is empty.
pub proof fn law_lines(line: Seq<char>, rest: Seq<char>)
    requires
        lacks(line, '\n'),
    ensures
        lines_of(line) == if line.len() > 0 {
            seq![line]
        } else {
            seq![]
        },
        line.len() == 0 || line.last() != '\r' ==> lines_of(line + seq!['\n'] + rest) == seq![line]
            + lines_of(rest),
        lines_of(line + seq!['\r', '\n'] + rest) == seq![line] + lines_of(rest),
{
    lemma_position(line, '\n', line.len() as int);
    let s = line + seq!['\n'] + rest;
    lemma_position(s, '\n', line.len() as int);
    assert(s.take(line.len() as int) =~= line);
    assert(s.skip(line.len() as int + 1) =~= rest);
    let r = line + seq!['\r', '\n'] + rest;
    let n = line.len() as int + 1;
    assert forall|j: int| 0 <= j < n implies r[j] != '\n' by {
        if j < line.len() {
            assert(r[j] == line[j]);
        }
    }
    lemma_position(r, '\n', n);
    assert(r.take(n) =~= line.push('\r'));
    assert(r.take(n).drop_last() =~= line);
    assert(r.skip(n + 1) =~= rest);
}

/// The lines that are not empty are read one after the other, each where it is not empty.
pub proof fn law_filled_lines(line: Seq<char>, rest: Seq<char>)
    requires
        lacks(line, '\n'),
        line.len() == 0 || line.last() != '\r',
    ensures
        filled_lines(line + seq!['\n'] + rest) == filled_lines(line) + filled_lines(rest),
        filled_lines(line) == if line.len() > 0 {
            seq![line]
        } else {
            seq![]
        },
{
    reveal(Seq::filter);
    law_lines(line, rest);
    let filled = |l: Seq<char>| l.len() > 0;
    Seq::filter_distributes_over_add(seq![line], lines_of(rest), filled);
    assert(seq![line].drop_last() =~= seq![]);
    assert(seq![line].drop_last().filter(filled) =~= seq![]);
    assert(seq![line].filter(filled) =~= if line.len() > 0 {
        seq![line]
    } else {
        seq![]
    });
}

/// Joined texts have the separator between every two.
pub proof fn law_joining(parts: Seq<Seq<char>>, part: Seq<char>, sep: Seq<char>)
    ensures
        joined(seq![], sep) == Seq::<char>::empty(),
        joined(seq![part], sep) == part,
        parts.len() > 0 ==> joined(parts.push(part), sep) == joined(parts, sep) + sep + part,
{
    if parts.len() > 0 {
        assert(parts.push(part).drop_last() =~= parts);
    }
}

// ---------------------------------------------------------------------------
// Parts of lines
// ---------------------------------------------------------------------------

/// A text is parted at the first, or at the last, place where the character stands, and
/// not where it has none.
pub proof fn law_parting(a: Seq<char>, c: char, b: Seq<char>)
    ensures
        lacks(a, c) ==> parted(a + seq![c] + b, c) == Some((a, b)) && before(a + seq![c] + b, c)
            == a,
        lacks(b, c) ==> parted_last(a + seq![c] + b, c) == Some((a, b)),
        lacks(a, c) ==> parted(a, c) is None && parted_last(a, c) is None && before(a, c) == a,
{
    let s = a + seq![c] + b;
    let n = a.len() as int;
    assert(s.take(n) =~= a);
    assert(s.skip(n + 1) =~= b);
    if lacks(a, c) {
        lemma_position(s, c, n);
        lemma_position(a, c, n);
        lemma_last_position(a, c, -1);
        assert(a.take(n) =~= a);
    }
    if lacks(b, c) {
        assert forall|j: int| n < j < s.len() implies s[j] != c by {
            assert(s[j] == b[j - n - 1]);
        }
        lemma_last_position(s, c, n);
    }
}

/// The second field is what stands between the first and the second separator, or behind
/// the first where there is no second.
pub proof fn law_second_fields(a: Seq<char>, c: char, b: Seq<char>, rest: Seq<char>)
    requires
        lacks(a, c),
        lacks(b, c),
    ensures
        second_field(a, c) is None,
        second_field(a + seq![c] + b, c) == Some(b),
        second_field(a + seq![c] + (b + seq![c] + rest), c) == Some(b),
{
    law_parting(a, c, b);
    law_parting(a, c, b + seq![c] + rest);
    law_parting(b, c, rest);
}

/// Each line of a log that is not empty is an entry: the hash is what stands before the
/// first separator, and the message what stands behind it.
pub proof fn law_entries(raw: Seq<char>, sep: char, i: int)
    requires
        0 <= i < filled_lines(raw).len(),
    ensures
        entries_in(raw, sep).len() == filled_lines(raw).len(),
        ({
            let (line, entry) = (filled_lines(raw)[i], entries_in(raw, sep)[i]);
            &&& lacks(entry.hash, sep)
            &&& if lacks(line, sep) {
                entry.hash == line && entry.message.len() == 0
            } else {
                line == entry.hash + seq![sep] + entry.message
            }
        }),
{
    let line = filled_lines(raw)[i];
    lemma_position_found(line, sep);
    let n = position(line, sep);
    if lacks(line, sep) {
        law_parting(line, sep, seq![]);
    } else {
        assert(n < line.len());
        assert(line =~= line.take(n) + seq![sep] + line.skip(n + 1));
    }
}

/// The refs on a remote are the second fields of the lines that have one, in their order.
pub proof fn law_ref_lines(lines: Seq<Seq<char>>, a: Seq<char>, b: Seq<char>)
    requires
        lacks(a, '\t'),
        lacks(b, '\t'),
    ensures
        second_fields(seq![]) == Seq::<Seq<char>>::empty(),
        second_fields(lines.push(a)) == second_fields(lines),
        second_fields(lines.push(a + seq!['\t'] + b)) == second_fields(lines).push(b),
{
    law_second_fields(a, '\t', b, seq![]);
    assert(lines.push(a).drop_last() =~= lines);
    assert(lines.push(a + seq!['\t'] + b).drop_last() =~= lines);
}

/// A walk ends at the line that is as many steps behind the first as asked for: the hash
/// stands before its first tab, and its subject behind the second. The walk is linear
/// where no line has two parents or more, and too short where there is no such line.
pub proof fn law_walk_ends(
    lines: Seq<Seq<char>>,
    steps: u32,
    hash: Seq<char>,
    parents: Seq<char>,
    subject: Seq<char>,
)
    requires
        lacks(hash, '\t'),
        lacks(parents, '\t'),
    ensures
        lines.len() <= steps ==> target_in(lines, steps) is Err,
        lines.len() > steps && lines[steps as int] == hash + seq!['\t'] + (parents + seq!['\t']
            + subject) ==> (target_in(lines, steps) matches Ok(target) && {
            &&& target.target_hash == hash
            &&& target.target_subject == subject
            &&& target.linear <==> forall|i: int|
                0 <= i < lines.len() ==> parents_in(#[trigger] lines[i]) <= 1
        }),
{
    law_parting(hash, '\t', parents + seq!['\t'] + subject);
    law_parting(parents, '\t', subject);
}

/// A line of a walk has as many parents as there are words in its second field, and its
/// subject stands behind the second tab. What is not there counts as empty.
pub proof fn law_walk_lines(hash: Seq<char>, parents: Seq<char>, subject: Seq<char>)
    requires
        lacks(hash, '\t'),
        lacks(parents, '\t'),
    ensures
        parents_in(hash) == 0,
        parents_in(hash + seq!['\t'] + parents) == words_in(parents),
        parents_in(hash + seq!['\t'] + (parents + seq!['\t'] + subject)) == words_in(parents),
        subject_in(hash) == Seq::<char>::empty(),
        subject_in(hash + seq!['\t'] + parents) == Seq::<char>::empty(),
        subject_in(hash + seq!['\t'] + (parents + seq!['\t'] + subject)) == subject,
{
    law_second_fields(hash, '\t', parents, subject);
    law_parting(hash, '\t', parents);
    law_parting(hash, '\t', parents + seq!['\t'] + subject);
    law_parting(parents, '\t', subject);
}

// ---------------------------------------------------------------------------
// Numbers
// ---------------------------------------------------------------------------

/// A number is spelled by decimal digits, with a plus sign before them or not; each digit
/// counts ten times the one behind it; and what does not fit is none.
pub proof fn law_numbers(s: Seq<char>, d: char)
    ensures
        spelled_u32(s) is Some ==> is_number(s) || (s[0] == '+' && is_number(s.drop_first())),
        is_number(s) && value_of(s) <= u32::MAX ==> spelled_u32(s) == Some(value_of(s) as u32)
            && spelled_u32(seq!['+'] + s) == Some(value_of(s) as u32),
        is_number(s) && value_of(s) > u32::MAX ==> spelled_u32(s) is None,
        is_number(s) <==> s.len() > 0 && forall|i: int|
            0 <= i < s.len() ==> 48 <= #[trigger] s[i] as int <= 57,
        value_of(Seq::<char>::empty()) == 0,
        '0' <= d <= '9' ==> value_of(s.push(d)) == 10 * value_of(s) + (d as int - 48),
{
    assert((seq!['+'] + s).drop_first() =~= s);
    assert(s.push(d).drop_last() =~= s);
    if s.len() > 0 && s[0] == '+' {
        assert(!is_number(s));
    }
    if s.len() > 0 && (forall|i: int| 0 <= i < s.len() ==> 48 <= #[trigger] s[i] as int <= 57) {
        assert forall|i: int| 0 <= i < s.len() implies '0' <= #[trigger] s[i] <= '9' by {
            assert(48 <= s[i] as int <= 57);
        }
    }
}

/// A number is written in decimal digits that spell it, with no zero in front.
pub proof fn law_decimals(n: nat)
    ensures
        is_number(decimal_of(n)),
        value_of(decimal_of(n)) == n,
        n > 0 ==> decimal_of(n)[0] != '0',
        n < 10 ==> decimal_of(n).len() == 1,
    decreases n,
{
    lemma_decimal_value(n);
    if n >= 10 {
        law_decimals(n / 10);
    }
}

/// The counts are the two numbers around the first tab, the white space around each
/// aside; where there is no tab, or one of them is none, there are no counts.
pub proof fn law_counts(left: Seq<char>, right: Seq<char>)
    requires
        lacks(left, '\t'),
    ensures
        counts_in(left) is None,
        counts_in(left + seq!['\t'] + right) == match (
            spelled_u32(trimmed(left)),
            spelled_u32(trimmed(right)),
        ) {
            (Some(l), Some(r)) => Some((l, r)),
            _ => None,
        },
{
    law_parting(left, '\t', right);
}

// ---------------------------------------------------------------------------
// Beginnings and ends
// ---------------------------------------------------------------------------

/// A text begins with another where it is that text and something behind it, and then
/// that is what stands behind it.
pub proof fn law_beginnings(s: Seq<char>, p: Seq<char>, rest: Seq<char>)
    ensures
        begins_with(p + rest, p) && behind(p + rest, p) == Some(rest),
        behind(s, p) matches Some(rest) ==> s == p + rest,
        begins_with(s, p) <==> behind(s, p) is Some,
{
    let n = p.len() as int;
    assert((p + rest).subrange(0, n) =~= p);
    assert((p + rest).skip(n) =~= rest);
    if begins_with(s, p) {
        assert(s.subrange(0, n) == p);
        assert(s =~= s.subrange(0, n) + s.skip(n));
    }
}

/// A text closes with another where it is something and that text.
pub proof fn law_ends(s: Seq<char>, p: Seq<char>, front: Seq<char>)
    ensures
        closes_with(front + p, p),
        closes_with(s, p) ==> exists|x: Seq<char>| s == #[trigger] (x + p),
{
    let n = p.len() as int;
    assert((front + p).subrange(front.len() as int, front.len() + n) =~= p);
    if closes_with(s, p) {
        let x = s.take(s.len() - n);
        assert(s.subrange(s.len() - n, s.len() as int) == p);
        assert(s =~= x + s.subrange(s.len() - n, s.len() as int));
        assert(s == x + p);
    }
}

/// A text holds another where something, that text and something else make it up.
pub proof fn law_holding(s: Seq<char>, p: Seq<char>, a: Seq<char>, b: Seq<char>)
    ensures
        holds(a + p + b, p),
        holds(s, p) ==> exists|x: Seq<char>, y: Seq<char>| s == #[trigger] (x + p + y),
{
    let n = p.len() as int;
    assert((a + p + b).subrange(a.len() as int, a.len() + n) =~= p);
    assert(stands_at(a + p + b, p, a.len() as int));
    if holds(s, p) {
        let i = choose|i: int| stands_at(s, p, i);
        let (x, y) = (s.take(i), s.skip(i + n));
        assert(s.subrange(i, i + n) == p);
        assert(s =~= x + s.subrange(i, i + n) + y);
        assert(s == x + p + y);
    }
}

/// Stripping takes a beginning away as often as it is there.
pub proof fn law_stripping(s: Seq<char>, p: Seq<char>)
    requires
        p.len() > 0,
    ensures
        behind_all(p + s, p) == behind_all(s, p),
        !begins_with(s, p) ==> behind_all(s, p) == s,
{
    let n = p.len() as int;
    assert((p + s).subrange(0, n) =~= p);
    assert((p + s).skip(n) =~= s);
}

// ---------------------------------------------------------------------------
// Remotes
// ---------------------------------------------------------------------------

/// The line of a remote.
pub open spec fn remote_text(name: Seq<char>, url: Seq<char>, direction: Seq<char>) -> Seq<char> {
    name + seq!['\t'] + (url + seq![' '] + ("("@ + direction + ")"@))
}

/// The words for the two directions have brackets around them and no space in them.
proof fn lemma_direction_words()
    ensures
        "("@ + "fetch"@ + ")"@ == "(fetch)"@,
        "("@ + "push"@ + ")"@ == "(push)"@,
        "(fetch)"@ != "(push)"@,
        lacks("(fetch)"@, ' '),
        lacks("(push)"@, ' '),
{
    reveal_strlit("(");
    reveal_strlit(")");
    reveal_strlit("fetch");
    reveal_strlit("push");
    reveal_strlit("(fetch)");
    reveal_strlit("(push)");
    assert("("@ + "fetch"@ + ")"@ =~= "(fetch)"@);
    assert("("@ + "push"@ + ")"@ =~= "(push)"@);
    assert("(fetch)"@.len() == 7 && "(push)"@.len() == 6);
}

/// A line with a name, a tab, an address, a space and `(fetch)` or `(push)` is an entry.
pub proof fn law_remote_lines(
    lines: Seq<Seq<char>>,
    name: Seq<char>,
    url: Seq<char>,
    direction: Seq<char>,
)
    requires
        lacks(name, '\t'),
        direction == "fetch"@ || direction == "push"@,
    ensures
        remotes_in(seq![]) == Seq::<RemoteEntryView>::empty(),
        remotes_in(lines.push(remote_text(name, url, direction))) == remotes_in(lines).push(
            RemoteEntryView { name, url, direction },
        ),
{
    lemma_direction_words();
    let text = remote_text(name, url, direction);
    let word = "("@ + direction + ")"@;
    law_parting(name, '\t', url + seq![' '] + word);
    law_parting(url, ' ', word);
    assert(direction_of(word) == Some(direction));
    assert(remote_in(text) == Some(RemoteEntryView { name, url, direction }));
    assert(lines.push(text).drop_last() =~= lines);
}

/// Every line that is no entry is passed over.
pub proof fn law_other_remote_lines(lines: Seq<Seq<char>>, line: Seq<char>)
    ensures
        remotes_in(lines.push(line)) == remotes_in(lines) || exists|e: RemoteEntryView|
            {
                &&& lacks(e.name, '\t')
                &&& e.direction == "fetch"@ || e.direction == "push"@
                &&& line == #[trigger] remote_text(e.name, e.url, e.direction)
            },
{
    assert(lines.push(line).drop_last() =~= lines);
    if let Some(e) = remote_in(line) {
        lemma_direction_words();
        let (_, rest) = parted(line, '\t')->0;
        lemma_position_found(line, '\t');
        assert(lacks(e.name, '\t'));
        assert(line =~= e.name + seq!['\t'] + rest);
        let j = last_position(rest, ' ');
        lemma_last_found(rest, ' ');
        let word = rest.skip(j + 1);
        assert(rest =~= e.url + seq![' '] + word);
        assert(direction_of(word) == Some(e.direction));
        assert(word == "("@ + e.direction + ")"@);
        assert(line == remote_text(e.name, e.url, e.direction));
    }
}

/// Where the character stands last.
proof fn lemma_last_found(s: Seq<char>, c: char)
    ensures
        -1 <= last_position(s, c) < s.len(),
        last_position(s, c) >= 0 ==> s[last_position(s, c)] == c,
    decreases s.len(),
{
    if s.len() > 0 && s.last() != c {
        lemma_last_found(s.drop_last(), c);
    }
}

/// Whether a character is an ASCII letter or digit, or one of the marks `/`, `.`, `_` and
/// `-`.
pub open spec fn in_plain_name(c: char) -> bool {
    let n = c as int;
    ||| 48 <= n <= 57 || 65 <= n <= 90 || 97 <= n <= 122
    ||| n == 47 || n == 46 || n == 95 || n == 45
}

/// The name of a remote is not empty and made of ASCII letters, digits and the marks `/`,
/// `.`, `_` and `-`; a refspec may have `*`, `+`, `~`, `^` and `:` as well.
pub proof fn law_names(s: Seq<char>)
    ensures
        is_remote_name(s) <==> s.len() > 0 && forall|i: int|
            0 <= i < s.len() ==> in_plain_name(#[trigger] s[i]),
        is_refspec(s) <==> s.len() > 0 && forall|i: int|
            0 <= i < s.len() ==> {
                let n = #[trigger] s[i] as int;
                in_plain_name(s[i]) || n == 42 || n == 43 || n == 126 || n == 94 || n == 58
            },
{
    assert(forall|c: char| #[trigger] in_remote_name(c) == in_plain_name(c));
    assert forall|c: char| #[trigger] in_refspec(c) == {
        let n = c as int;
        in_plain_name(c) || n == 42 || n == 43 || n == 126 || n == 94 || n == 58
    } by {
        assert(in_remote_name(c) == in_plain_name(c));
    }
    if is_remote_name(s) {
        assert forall|i: int| 0 <= i < s.len() implies in_plain_name(#[trigger] s[i]) by {
            assert(in_remote_name(s[i]));
        }
    }
    if s.len() > 0 && forall|i: int| 0 <= i < s.len() ==> in_plain_name(#[trigger] s[i]) {
        assert forall|i: int| 0 <= i < s.len() implies in_remote_name(#[trigger] s[i]) by {
            assert(in_plain_name(s[i]));
        }
    }
    if is_refspec(s) {
        assert forall|i: int| 0 <= i < s.len() implies {
            let n = #[trigger] s[i] as int;
            in_plain_name(s[i]) || n == 42 || n == 43 || n == 126 || n == 94 || n == 58
        } by {
            assert(in_refspec(s[i]));
        }
    }
}

// ---------------------------------------------------------------------------
// Paths
// ---------------------------------------------------------------------------

/// A name that starts at the root is a path of its own. Another stands behind the path,
/// with one slash between, and a worktree stands in the directory `.worktrees` of its
/// repository.
pub proof fn law_paths(path: Seq<char>, name: Seq<char>)
    ensures
        name.len() > 0 && name[0] == '/' ==> joined_path(path, name) == name && worktree_path_of(
            path,
            name,
        ) == name,
        (name.len() == 0 || name[0] != '/') && path.len() > 0 && path.last() != '/' ==> {
            &&& joined_path(path, name) == path + "/"@ + name
            &&& joined_path(path + "/"@, name) == path + "/"@ + name
            &&& worktree_path_of(path, name) == path + "/.worktrees/"@ + name
        },
        (name.len() == 0 || name[0] != '/') && (path.len() == 0 || path.last() == '/')
            ==> joined_path(path, name) == path + name,
        worktree_path_of(path, name) == joined_path(joined_path(path, ".worktrees"@), name),
        is_absolute(path) <==> {
            ||| path.len() > 0 && path[0] == '/'
            ||| path.len() > 1 && path[0] == '\\' && path[1] == '\\'
            ||| path.len() > 2 && (65 <= path[0] as int <= 90 || 97 <= path[0] as int <= 122)
                && path[1] == ':' && (path[2] == '\\' || path[2] == '/')
        },
{
    reveal_strlit("/");
    reveal_strlit(".worktrees");
    reveal_strlit("/.worktrees/");
    assert("/"@ =~= seq!['/']);
    if (name.len() == 0 || name[0] != '/') && path.len() > 0 && path.last() != '/' {
        assert(path.push('/') + name =~= path + "/"@ + name);
        assert((path + "/"@).last() == '/');
        let dir = joined_path(path, ".worktrees"@);
        assert(dir =~= path + "/"@ + ".worktrees"@);
        assert(dir.last() == ".worktrees"@.last());
        assert("/.worktrees/"@ =~= "/"@ + ".worktrees"@ + "/"@);
        assert(dir.push('/') + name =~= path + "/.worktrees/"@ + name);
    }
}

// ---------------------------------------------------------------------------
// Worktrees
// ---------------------------------------------------------------------------

/// In a list of worktrees, a `worktree` line opens a record with the path behind it, a
/// `branch` line gives the last record its branch, without `refs/heads/`, a `bare` line
/// marks it, and every other line says nothing.
pub proof fn law_worktree_lines(lines: Seq<Seq<char>>, rest: Seq<char>, line: Seq<char>)
    requires
        lines.len() > 0,
        begins_with(lines[0], "worktree "@),
    ensures
        ({
            let known = records(list_state(lines));
            let after = |line: Seq<char>| records(list_state(lines.push(line)));
            &&& known.len() > 0
            &&& after("worktree "@ + rest) == known.push(
                WorktreeView { path: rest, branch: None, is_bare: false },
            )
            &&& after("branch "@ + rest) == known.drop_last().push(
                WorktreeView { branch: Some(behind_all(rest, "refs/heads/"@)), ..known.last() },
            )
            &&& after("bare"@) == known.drop_last().push(
                WorktreeView { is_bare: true, ..known.last() },
            )
            &&& !begins_with(line, "worktree "@) && !begins_with(line, "branch "@) && line
                != "bare"@ ==> after(line) == known
        }),
{
    reveal_strlit("worktree ");
    reveal_strlit("branch ");
    reveal_strlit("bare");
    lemma_open(lines);
    let st = list_state(lines);
    let known = records(st);
    let (w, b, e) = ("worktree "@ + rest, "branch "@ + rest, "bare"@);
    law_beginnings(w, "worktree "@, rest);
    law_beginnings(b, "branch "@, rest);
    assert(!begins_with(b, "worktree "@)) by {
        assert(b[0] == 'b');
        if begins_with(b, "worktree "@) {
            assert(b.subrange(0, 9)[0] == b[0]);
        }
    }
    assert(!begins_with(e, "worktree "@) && !begins_with(e, "branch "@));
    assert(lines.push(w).drop_last() =~= lines);
    assert(lines.push(b).drop_last() =~= lines);
    assert(lines.push(e).drop_last() =~= lines);
    assert(lines.push(line).drop_last() =~= lines);
    assert(known.drop_last() =~= st.complete);
    assert(list_state(lines.push(w)) == list_line(st, w));
    assert(list_state(lines.push(b)) == list_line(st, b));
    assert(list_state(lines.push(e)) == list_line(st, e));
}

/// Behind a `worktree` line a record is open.
proof fn lemma_open(lines: Seq<Seq<char>>)
    requires
        lines.len() > 0,
        begins_with(lines[0], "worktree "@),
    ensures
        list_state(lines).path is Some,
    decreases lines.len(),
{
    if lines.len() > 1 {
        lemma_open(lines.drop_last());
    } else {
        assert(lines.drop_last().len() == 0);
    }
}

/// An empty list has no worktrees, and a list of one `worktree` line has one.
pub proof fn law_first_worktrees(path: Seq<char>)
    ensures
        records(list_state(seq![])) == Seq::<WorktreeView>::empty(),
        records(list_state(seq!["worktree "@ + path])) == seq![
            WorktreeView { path, branch: None, is_bare: false },
        ],
{
    let line = "worktree "@ + path;
    law_beginnings(line, "worktree "@, path);
    assert(seq![line].drop_last() =~= seq![]);
    assert(list_state(seq![line]) == list_line(list_state(seq![]), line));
    assert(records(list_state(seq![line])) =~= seq![
        WorktreeView { path, branch: None, is_bare: false },
    ]);
}

} // verus!
