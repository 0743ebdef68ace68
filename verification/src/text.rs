//! Text operations on Unicode strings, each with an exact contract over the
//! sequence of characters that the string holds.

use vstd::prelude::*;
use vstd::string::*;

verus! {

/// `String::push` of the standard library appends one character at the end.
pub assume_specification[ String::push ](s: &mut String, c: char)
    ensures
        final(s)@ == old(s)@.push(c),
;

// ---------------------------------------------------------------------------
// Characters
// ---------------------------------------------------------------------------

/// The characters with the Unicode property `White_Space`.
pub open spec fn is_space(c: char) -> bool {
    ||| '\u{9}' <= c <= '\u{d}'
    ||| c == '\u{20}'
    ||| c == '\u{85}'
    ||| c == '\u{a0}'
    ||| c == '\u{1680}'
    ||| '\u{2000}' <= c <= '\u{200a}'
    ||| c == '\u{2028}'
    ||| c == '\u{2029}'
    ||| c == '\u{202f}'
    ||| c == '\u{205f}'
    ||| c == '\u{3000}'
}

/// Whether `c` has the Unicode property `White_Space`.
pub fn space(c: char) -> (r: bool)
    ensures
        r == is_space(c),
{
    ('\u{9}' <= c && c <= '\u{d}') || c == '\u{20}' || c == '\u{85}' || c == '\u{a0}' || c
        == '\u{1680}' || ('\u{2000}' <= c && c <= '\u{200a}') || c == '\u{2028}' || c == '\u{2029}'
        || c == '\u{202f}' || c == '\u{205f}' || c == '\u{3000}'
}

/// ASCII letters and digits.
pub open spec fn is_alnum(c: char) -> bool {
    ||| 'a' <= c <= 'z'
    ||| 'A' <= c <= 'Z'
    ||| '0' <= c <= '9'
}

/// Whether `c` is an ASCII letter or digit.
pub fn alnum(c: char) -> (r: bool)
    ensures
        r == is_alnum(c),
{
    ('a' <= c && c <= 'z') || ('A' <= c && c <= 'Z') || ('0' <= c && c <= '9')
}

// ---------------------------------------------------------------------------
// Between strings and characters
// ---------------------------------------------------------------------------

/// The characters of `s`, in order.
pub fn chars_of(s: &str) -> (v: Vec<char>)
    ensures
        v@ == s@,
{
    let mut v: Vec<char> = Vec::new();
    for c in it: s.chars()
        invariant
            it.seq() == s@,
            v@ == s@.take(it.index() as int),
    {
        v.push(c);
    }
    v
}

/// The string made of the characters `from..to` of `v`.
pub fn slice(v: &[char], from: usize, to: usize) -> (s: String)
    requires
        from <= to <= v@.len(),
    ensures
        s@ == v@.subrange(from as int, to as int),
{
    let mut s = String::new();
    let mut i: usize = from;
    while i < to
        invariant
            from <= i <= to <= v@.len(),
            s@ == v@.subrange(from as int, i as int),
        decreases to - i,
    {
        s.push(v[i]);
        i += 1;
    }
    s
}

/// Whether two strings hold the same characters.
pub fn same(a: &str, b: &str) -> (r: bool)
    ensures
        r == (a@ == b@),
{
    a.to_string() == b.to_string()
}

/// Appends `x` to `v`.
pub fn append<T: DeepView>(v: &mut Vec<T>, x: T)
    ensures
        final(v)@ == old(v)@.push(x),
        final(v).deep_view() == old(v).deep_view().push(x.deep_view()),
{
    let ghost before = v.deep_view();
    v.push(x);
    assert(v.deep_view() =~= before.push(x.deep_view()));
}

/// A copy of a list of strings.
pub fn copy_all(v: &[String]) -> (r: Vec<String>)
    ensures
        r.deep_view() == v.deep_view(),
{
    let mut r: Vec<String> = Vec::new();
    let mut i: usize = 0;
    while i < v.len()
        invariant
            i <= v@.len(),
            r.deep_view() == v.deep_view().take(i as int),
        decreases v@.len() - i,
    {
        append(&mut r, v[i].clone());
        i += 1;
        assert(r.deep_view() =~= v.deep_view().take(i as int));
    }
    assert(v.deep_view().take(i as int) =~= v.deep_view());
    r
}

// ---------------------------------------------------------------------------
// Finding a character
// ---------------------------------------------------------------------------

/// The index of the first `c` in `s`, or the length of `s` where there is none.
pub open spec fn position(s: Seq<char>, c: char) -> int
    decreases s.len(),
{
    if s.len() == 0 || s[0] == c {
        0
    } else {
        1 + position(s.drop_first(), c)
    }
}

/// The index of the last `c` in `s`, or `-1` where there is none.
pub open spec fn last_position(s: Seq<char>, c: char) -> int
    decreases s.len(),
{
    if s.len() == 0 || s.last() == c {
        s.len() - 1
    } else {
        last_position(s.drop_last(), c)
    }
}

/// `position` is the one index that has no `c` before it and a `c` at it or the end.
pub proof fn lemma_position(s: Seq<char>, c: char, i: int)
    requires
        0 <= i <= s.len(),
        forall|j: int| 0 <= j < i ==> s[j] != c,
        i < s.len() ==> s[i] == c,
    ensures
        position(s, c) == i,
    decreases s.len(),
{
    if i > 0 {
        let t = s.drop_first();
        assert forall|j: int| 0 <= j < i - 1 implies t[j] != c by {
            assert(t[j] == s[j + 1]);
        }
        lemma_position(t, c, i - 1);
    }
}

/// `last_position` is the one index that has no `c` behind it and a `c` at it, or `-1`.
pub proof fn lemma_last_position(s: Seq<char>, c: char, i: int)
    requires
        -1 <= i < s.len(),
        forall|j: int| i < j < s.len() ==> s[j] != c,
        i >= 0 ==> s[i] == c,
    ensures
        last_position(s, c) == i,
    decreases s.len(),
{
    if i < s.len() - 1 {
        lemma_last_position(s.drop_last(), c, i);
    }
}

/// What `position` finds.
pub proof fn lemma_position_found(s: Seq<char>, c: char)
    ensures
        0 <= position(s, c) <= s.len(),
        forall|j: int| 0 <= j < position(s, c) ==> s[j] != c,
        position(s, c) < s.len() ==> s[position(s, c)] == c,
    decreases s.len(),
{
    if s.len() > 0 && s[0] != c {
        let t = s.drop_first();
        lemma_position_found(t, c);
        assert forall|j: int| 0 <= j < position(s, c) implies s[j] != c by {
            if j > 0 {
                assert(s[j] == t[j - 1]);
            }
        }
    }
}

/// The index of the first `c` in `v` from `from` on, or the length of `v`.
fn find(v: &[char], c: char, from: usize) -> (i: usize)
    requires
        from <= v@.len(),
    ensures
        from <= i <= v@.len(),
        i == from + position(v@.skip(from as int), c),
{
    let mut i: usize = from;
    while i < v.len() && v[i] != c
        invariant
            from <= i <= v@.len(),
            forall|j: int| from <= j < i ==> v@[j] != c,
        decreases v@.len() - i,
    {
        i += 1;
    }
    proof {
        let t = v@.skip(from as int);
        assert forall|j: int| 0 <= j < i - from implies t[j] != c by {
            assert(t[j] == v@[j + from]);
        }
        lemma_position(t, c, i - from);
    }
    i
}

/// The part of `s` before its first `c`, or all of `s`.
pub open spec fn before(s: Seq<char>, c: char) -> Seq<char> {
    s.take(position(s, c))
}

/// `s` parted at its first `c`, which is left out.
pub open spec fn parted(s: Seq<char>, c: char) -> Option<(Seq<char>, Seq<char>)> {
    let i = position(s, c);
    if i < s.len() {
        Some((s.take(i), s.skip(i + 1)))
    } else {
        None
    }
}

/// `s` parted at its last `c`, which is left out.
pub open spec fn parted_last(s: Seq<char>, c: char) -> Option<(Seq<char>, Seq<char>)> {
    let i = last_position(s, c);
    if i >= 0 {
        Some((s.take(i), s.skip(i + 1)))
    } else {
        None
    }
}

/// Parts `s` at its first `c`.
pub fn split_once(s: &str, c: char) -> (r: Option<(String, String)>)
    ensures
        r.deep_view() == parted(s@, c),
{
    let v = chars_of(s);
    let i = find(v.as_slice(), c, 0);
    assert(v@.skip(0) =~= v@);
    if i < v.len() {
        let head = slice(v.as_slice(), 0, i);
        let tail = slice(v.as_slice(), i + 1, v.len());
        Some((head, tail))
    } else {
        None
    }
}

/// Parts `s` at its last `c`.
pub fn rsplit_once(s: &str, c: char) -> (r: Option<(String, String)>)
    ensures
        r.deep_view() == parted_last(s@, c),
{
    let v = chars_of(s);
    let mut i: usize = v.len();
    while i > 0 && v[i - 1] != c
        invariant
            i <= v@.len(),
            forall|j: int| i <= j < v@.len() ==> v@[j] != c,
        decreases i,
    {
        i -= 1;
    }
    proof {
        lemma_last_position(v@, c, i - 1);
    }
    if i > 0 {
        let head = slice(v.as_slice(), 0, i - 1);
        let tail = slice(v.as_slice(), i, v.len());
        Some((head, tail))
    } else {
        None
    }
}

/// The second of the fields of `s` that `c` separates: what `split(c)` yields
/// at index one.
pub open spec fn second_field(s: Seq<char>, c: char) -> Option<Seq<char>> {
    match parted(s, c) {
        Some((_, rest)) => Some(before(rest, c)),
        None => None,
    }
}

/// The second of the fields of `s` that `c` separates.
pub fn field_two(s: &str, c: char) -> (r: Option<String>)
    ensures
        r.deep_view() == second_field(s@, c),
{
    match split_once(s, c) {
        Some((_, rest)) => {
            let v = chars_of(rest.as_str());
            let i = find(v.as_slice(), c, 0);
            assert(v@.skip(0) =~= v@);
            Some(slice(v.as_slice(), 0, i))
        },
        None => None,
    }
}

// ---------------------------------------------------------------------------
// Trimming
// ---------------------------------------------------------------------------

/// `s` without the white space at its start.
pub open spec fn trimmed_start(s: Seq<char>) -> Seq<char>
    decreases s.len(),
{
    if s.len() > 0 && is_space(s[0]) {
        trimmed_start(s.drop_first())
    } else {
        s
    }
}

/// `s` without the white space at its end.
pub open spec fn trimmed_end(s: Seq<char>) -> Seq<char>
    decreases s.len(),
{
    if s.len() > 0 && is_space(s.last()) {
        trimmed_end(s.drop_last())
    } else {
        s
    }
}

/// `s` without the white space at both ends.
pub open spec fn trimmed(s: Seq<char>) -> Seq<char> {
    trimmed_end(trimmed_start(s))
}

/// `s` without the white space at both ends.
pub fn trim(s: &str) -> (r: String)
    ensures
        r@ == trimmed(s@),
{
    let v = chars_of(s);
    let mut i: usize = 0;
    assert(v@.skip(0) =~= v@);
    while i < v.len() && space(v[i])
        invariant
            i <= v@.len(),
            trimmed_start(v@) == trimmed_start(v@.skip(i as int)),
        decreases v@.len() - i,
    {
        assert(v@.skip(i as int).drop_first() =~= v@.skip(i + 1));
        i += 1;
    }
    let mut j: usize = v.len();
    assert(v@.subrange(i as int, j as int) =~= v@.skip(i as int));
    while j > i && space(v[j - 1])
        invariant
            i <= j <= v@.len(),
            trimmed(v@) == trimmed_end(v@.subrange(i as int, j as int)),
        decreases j,
    {
        assert(v@.subrange(i as int, j as int).drop_last() =~= v@.subrange(i as int, j - 1));
        j -= 1;
    }
    slice(v.as_slice(), i, j)
}

// ---------------------------------------------------------------------------
// Prefixes, suffixes, substrings
// ---------------------------------------------------------------------------

/// Whether `p` stands in `s` at index `i`.
pub open spec fn stands_at(s: Seq<char>, p: Seq<char>, i: int) -> bool {
    0 <= i && i + p.len() <= s.len() && s.subrange(i, i + p.len()) == p
}

/// Whether `s` begins with `p`.
pub open spec fn begins_with(s: Seq<char>, p: Seq<char>) -> bool {
    stands_at(s, p, 0)
}

/// Whether `s` closes with `p`.
pub open spec fn closes_with(s: Seq<char>, p: Seq<char>) -> bool {
    stands_at(s, p, s.len() - p.len())
}

/// Whether `p` stands anywhere in `s`.
pub open spec fn holds(s: Seq<char>, p: Seq<char>) -> bool {
    exists|i: int| stands_at(s, p, i)
}

/// What is left of `s` behind the prefix `p`.
pub open spec fn behind(s: Seq<char>, p: Seq<char>) -> Option<Seq<char>> {
    if begins_with(s, p) {
        Some(s.skip(p.len() as int))
    } else {
        None
    }
}

/// `s` with `p` taken from its start as often as it stands there.
pub open spec fn behind_all(s: Seq<char>, p: Seq<char>) -> Seq<char>
    decreases s.len(),
{
    if p.len() > 0 && begins_with(s, p) {
        behind_all(s.skip(p.len() as int), p)
    } else {
        s
    }
}

/// What stands in `s` at `i` begins the rest of `s` from `i` on.
proof fn lemma_stands_behind(s: Seq<char>, p: Seq<char>, i: int)
    requires
        0 <= i <= s.len(),
    ensures
        stands_at(s, p, i) == begins_with(s.skip(i), p),
{
    if i + p.len() <= s.len() {
        assert(s.skip(i).subrange(0, p.len() as int) =~= s.subrange(i, i + p.len()));
    }
}

/// Whether `p` stands in `v` at index `i`.
fn matches_at(v: &[char], p: &[char], i: usize) -> (r: bool)
    requires
        i <= v@.len(),
    ensures
        r == stands_at(v@, p@, i as int),
{
    let n = v.len();
    if n - i < p.len() {
        return false;
    }
    let mut k: usize = 0;
    while k < p.len()
        invariant
            n == v@.len(),
            i <= n,
            k <= p@.len() <= v@.len() - i,
            forall|j: int| 0 <= j < k ==> v@[i + j] == p@[j],
        decreases p@.len() - k,
    {
        if v[i + k] != p[k] {
            assert(v@.subrange(i as int, i + p@.len())[k as int] == v@[i + k]);
            return false;
        }
        k += 1;
    }
    assert(v@.subrange(i as int, i + p@.len()) =~= p@);
    true
}

/// Whether `s` begins with `p`.
pub fn starts_with(s: &str, p: &str) -> (r: bool)
    ensures
        r == begins_with(s@, p@),
{
    let v = chars_of(s);
    let w = chars_of(p);
    matches_at(v.as_slice(), w.as_slice(), 0)
}

/// Whether `s` closes with `p`.
pub fn ends_with(s: &str, p: &str) -> (r: bool)
    ensures
        r == closes_with(s@, p@),
{
    let v = chars_of(s);
    let w = chars_of(p);
    if w.len() > v.len() {
        false
    } else {
        matches_at(v.as_slice(), w.as_slice(), v.len() - w.len())
    }
}

/// Whether `p` stands anywhere in `s`.
pub fn contains(s: &str, p: &str) -> (r: bool)
    ensures
        r == holds(s@, p@),
{
    let v = chars_of(s);
    let w = chars_of(p);
    let mut i: usize = 0;
    while i < v.len()
        invariant
            v@ == s@,
            w@ == p@,
            i <= v@.len(),
            forall|j: int| 0 <= j < i ==> !stands_at(s@, p@, j),
        decreases v@.len() - i,
    {
        if matches_at(v.as_slice(), w.as_slice(), i) {
            return true;
        }
        i += 1;
    }
    let last = matches_at(v.as_slice(), w.as_slice(), i);
    assert(forall|j: int| j > v@.len() ==> !stands_at(s@, p@, j));
    last
}

/// What is left of `s` behind the prefix `p`.
pub fn strip_prefix(s: &str, p: &str) -> (r: Option<String>)
    ensures
        r.deep_view() == behind(s@, p@),
{
    let v = chars_of(s);
    let w = chars_of(p);
    if matches_at(v.as_slice(), w.as_slice(), 0) {
        Some(slice(v.as_slice(), w.len(), v.len()))
    } else {
        None
    }
}

/// `s` with `p` taken from its start as often as it stands there.
pub fn strip_all(s: &str, p: &str) -> (r: String)
    ensures
        r@ == behind_all(s@, p@),
{
    let v = chars_of(s);
    let w = chars_of(p);
    let n = v.len();
    let mut i: usize = 0;
    assert(v@.skip(0) =~= v@);
    while w.len() > 0 && matches_at(v.as_slice(), w.as_slice(), i)
        invariant
            w@ == p@,
            n == v@.len(),
            i <= n,
            behind_all(v@, p@) == behind_all(v@.skip(i as int), p@),
        decreases n - i,
    {
        proof {
            lemma_stands_behind(v@, p@, i as int);
        }
        assert(v@.skip(i as int).skip(p@.len() as int) =~= v@.skip(i + p@.len()));
        i += w.len();
    }
    proof {
        lemma_stands_behind(v@, p@, i as int);
    }
    slice(v.as_slice(), i, n)
}

// ---------------------------------------------------------------------------
// Lines and words
// ---------------------------------------------------------------------------

/// A line without the carriage return at its end.
pub open spec fn without_cr(line: Seq<char>) -> Seq<char> {
    if line.len() > 0 && line.last() == '\r' {
        line.drop_last()
    } else {
        line
    }
}

/// The lines of `s`. A line ends at a line feed, or at a carriage return and a
/// line feed; what stands behind the last line feed is a line where it is not empty.
pub open spec fn lines_of(s: Seq<char>) -> Seq<Seq<char>>
    decreases s.len(),
{
    proof {
        lemma_position_found(s, '\n');
    }
    let i = position(s, '\n');
    if s.len() == 0 {
        seq![]
    } else if i >= s.len() {
        seq![s]
    } else {
        seq![without_cr(s.take(i))] + lines_of(s.skip(i + 1))
    }
}

/// The lines of `s` that are not empty.
pub open spec fn filled_lines(s: Seq<char>) -> Seq<Seq<char>> {
    lines_of(s).filter(|l: Seq<char>| l.len() > 0)
}

/// The lines of `s`.
pub fn lines(s: &str) -> (r: Vec<String>)
    ensures
        r.deep_view() == lines_of(s@),
{
    let v = chars_of(s);
    let n = v.len();
    let mut r: Vec<String> = Vec::new();
    let mut from: usize = 0;
    assert(v@.skip(0) =~= v@);
    assert(r.deep_view() =~= seq![]);
    while from < n
        invariant
            v@ == s@,
            n == v@.len(),
            from <= n,
            lines_of(s@) == r.deep_view() + lines_of(s@.skip(from as int)),
        decreases n - from,
    {
        let i = find(v.as_slice(), '\n', from);
        let ghost rest = s@.skip(from as int);
        let ghost done = r.deep_view();
        if i >= n {
            append(&mut r, slice(v.as_slice(), from, n));
            assert(s@.subrange(from as int, n as int) =~= rest);
            from = n;
            assert(s@.skip(from as int) =~= seq![]);
        } else {
            let end = if i > from && v[i - 1] == '\r' {
                i - 1
            } else {
                i
            };
            append(&mut r, slice(v.as_slice(), from, end));
            assert(s@.subrange(from as int, end as int) =~= without_cr(rest.take(i - from)));
            assert(rest.skip(i - from + 1) =~= s@.skip(i + 1));
            from = i + 1;
        }
        assert(r.deep_view() + lines_of(s@.skip(from as int)) =~= done + lines_of(rest));
    }
    assert(s@.skip(from as int) =~= seq![]);
    assert(r.deep_view() + lines_of(s@.skip(from as int)) =~= r.deep_view());
    r
}

/// The lines of `s` that are not empty.
pub fn nonempty_lines(s: &str) -> (r: Vec<String>)
    ensures
        r.deep_view() == filled_lines(s@),
{
    let all = lines(s);
    let mut r: Vec<String> = Vec::new();
    let mut i: usize = 0;
    let ghost ls = all.deep_view();
    let ghost filled = |l: Seq<char>| l.len() > 0;
    proof {
        reveal(Seq::filter);
        assert(r.deep_view() =~= ls.take(0).filter(filled));
    }
    while i < all.len()
        invariant
            ls == all.deep_view(),
            filled == (|l: Seq<char>| l.len() > 0),
            i <= all@.len(),
            r.deep_view() == ls.take(i as int).filter(filled),
        decreases all@.len() - i,
    {
        proof {
            reveal(Seq::filter);
            assert(ls.take(i + 1).drop_last() =~= ls.take(i as int));
        }
        if !all[i].as_str().is_empty() {
            append(&mut r, all[i].clone());
        }
        i += 1;
    }
    assert(ls.take(i as int) =~= ls);
    r
}

/// The number of words of `s`: of runs of characters that are no white space.
pub open spec fn words_in(s: Seq<char>) -> nat
    decreases s.len(),
{
    if s.len() == 0 {
        0
    } else if !is_space(s.last()) && (s.len() == 1 || is_space(s[s.len() - 2])) {
        words_in(s.drop_last()) + 1
    } else {
        words_in(s.drop_last())
    }
}

/// The number of words of `s`.
pub fn word_count(s: &str) -> (n: usize)
    ensures
        n == words_in(s@),
{
    let v = chars_of(s);
    let mut n: usize = 0;
    let mut i: usize = 0;
    while i < v.len()
        invariant
            i <= v@.len(),
            n <= i,
            n == words_in(v@.take(i as int)),
        decreases v@.len() - i,
    {
        assert(v@.take(i + 1).drop_last() =~= v@.take(i as int));
        if !space(v[i]) && (i == 0 || space(v[i - 1])) {
            n += 1;
        }
        i += 1;
    }
    assert(v@.take(i as int) =~= v@);
    n
}

// ---------------------------------------------------------------------------
// Numbers
// ---------------------------------------------------------------------------

/// The decimal digit for a number below ten.
pub open spec fn digit(d: int) -> char {
    (48 + d) as u8 as char
}

/// A number in decimal digits, without leading zeros.
pub open spec fn decimal_of(n: nat) -> Seq<char>
    decreases n,
{
    if n < 10 {
        seq![digit(n as int)]
    } else {
        decimal_of(n / 10).push(digit((n % 10) as int))
    }
}

/// `n` in decimal digits.
pub fn decimal(n: u64) -> (r: String)
    ensures
        r@ == decimal_of(n as nat),
    decreases n,
{
    let mut r = if n < 10 {
        String::new()
    } else {
        decimal(n / 10)
    };
    let d = (n % 10) as u8;
    r.push((48 + d) as char);
    assert(n < 10 ==> r@ =~= seq![digit(n as int)]);
    r
}

/// The number that decimal digits stand for.
pub open spec fn value_of(s: Seq<char>) -> nat
    decreases s.len(),
{
    if s.len() == 0 {
        0
    } else {
        value_of(s.drop_last()) * 10 + ((s.last() as nat) - 48) as nat
    }
}

/// Whether `s` holds decimal digits alone, one at least.
pub open spec fn is_number(s: Seq<char>) -> bool {
    s.len() > 0 && forall|i: int| 0 <= i < s.len() ==> '0' <= #[trigger] s[i] <= '9'
}

/// The unsigned number that `s` spells: decimal digits, with a plus sign before
/// them or not, of a value that fits.
pub open spec fn spelled_u32(s: Seq<char>) -> Option<u32> {
    let digits = if s.len() > 0 && s[0] == '+' {
        s.drop_first()
    } else {
        s
    };
    if is_number(digits) && value_of(digits) <= u32::MAX {
        Some(value_of(digits) as u32)
    } else {
        None
    }
}

/// More digits never stand for less.
proof fn lemma_value_grows(s: Seq<char>, i: int)
    requires
        0 <= i <= s.len(),
    ensures
        value_of(s.take(i)) <= value_of(s),
    decreases s.len(),
{
    if i < s.len() {
        lemma_value_grows(s.drop_last(), i);
        assert(s.drop_last().take(i) =~= s.take(i));
    } else {
        assert(s.take(i) =~= s);
    }
}

/// Reads the unsigned number that `s` spells.
pub fn parse_u32(s: &str) -> (r: Option<u32>)
    ensures
        r == spelled_u32(s@),
{
    let v = chars_of(s);
    let n = v.len();
    let start: usize = if n > 0 && v[0] == '+' {
        1
    } else {
        0
    };
    let ghost digits = v@.skip(start as int);
    assert(start == 0 ==> digits =~= v@);
    assert(start == 1 ==> digits =~= v@.drop_first());
    if start == n {
        return None;
    }
    let mut total: u64 = 0;
    let mut i: usize = start;
    while i < n
        invariant
            n == v@.len(),
            start <= i <= n,
            digits == v@.skip(start as int),
            spelled_u32(s@) == (if is_number(digits) && value_of(digits) <= u32::MAX {
                Some(value_of(digits) as u32)
            } else {
                None
            }),
            total == value_of(digits.take(i - start)),
            total <= u32::MAX,
            forall|j: int| 0 <= j < i - start ==> '0' <= #[trigger] digits[j] <= '9',
        decreases n - i,
    {
        let c = v[i];
        assert(c == digits[i - start]);
        if c < '0' || '9' < c {
            return None;
        }
        assert(digits.take(i - start + 1).drop_last() =~= digits.take(i - start));
        total = total * 10 + (c as u64 - 48);
        i += 1;
        if total > 4294967295 {
            proof {
                lemma_value_grows(digits, i - start);
            }
            return None;
        }
    }
    assert(digits.take(i - start) =~= digits);
    Some(total as u32)
}

/// Reading the decimal digits of a number gives the number back.
pub proof fn lemma_decimal_spells(n: u32)
    ensures
        spelled_u32(decimal_of(n as nat)) == Some(n),
{
    lemma_decimal_value(n as nat);
}

/// The decimal digits of a number stand for it.
pub proof fn lemma_decimal_value(n: nat)
    ensures
        is_number(decimal_of(n)),
        value_of(decimal_of(n)) == n,
    decreases n,
{
    if n < 10 {
        assert(decimal_of(n).drop_last() =~= seq![]);
        assert(value_of(decimal_of(n).drop_last()) == 0);
    } else {
        lemma_decimal_value(n / 10);
        assert(decimal_of(n).drop_last() =~= decimal_of(n / 10));
    }
}

// ---------------------------------------------------------------------------
// Joining
// ---------------------------------------------------------------------------

/// The parts, one behind the other, with `sep` between them.
pub open spec fn joined(parts: Seq<Seq<char>>, sep: Seq<char>) -> Seq<char>
    decreases parts.len(),
{
    if parts.len() == 0 {
        seq![]
    } else if parts.len() == 1 {
        parts[0]
    } else {
        joined(parts.drop_last(), sep) + sep + parts.last()
    }
}

/// Joins the first `n` parts with `sep` between them.
pub fn join(parts: &[String], n: usize, sep: &str) -> (r: String)
    requires
        n <= parts@.len(),
    ensures
        r@ == joined(parts.deep_view().take(n as int), sep@),
{
    let mut r = String::new();
    let mut i: usize = 0;
    let ghost ps = parts.deep_view();
    while i < n
        invariant
            ps == parts.deep_view(),
            i <= n <= parts@.len(),
            r@ == joined(ps.take(i as int), sep@),
        decreases n - i,
    {
        assert(ps.take(i + 1).drop_last() =~= ps.take(i as int));
        if i > 0 {
            r.append(sep);
        }
        r.append(parts[i].as_str());
        i += 1;
        assert(r@ =~= joined(ps.take(i as int), sep@));
    }
    r
}

// ---------------------------------------------------------------------------
// Lists of words
// ---------------------------------------------------------------------------

/// The list of two words.
pub fn words2(a: &str, b: &str) -> (r: Vec<String>)
    ensures
        r.deep_view() == seq![a@, b@],
{
    vec![a.to_string(), b.to_string()]
}

/// The list of three words.
pub fn words3(a: &str, b: &str, c: &str) -> (r: Vec<String>)
    ensures
        r.deep_view() == seq![a@, b@, c@],
{
    vec![a.to_string(), b.to_string(), c.to_string()]
}

/// The list of four words.
pub fn words4(a: &str, b: &str, c: &str, d: &str) -> (r: Vec<String>)
    ensures
        r.deep_view() == seq![a@, b@, c@, d@],
{
    vec![a.to_string(), b.to_string(), c.to_string(), d.to_string()]
}

/// The list of five words.
pub fn words5(a: &str, b: &str, c: &str, d: &str, e: &str) -> (r: Vec<String>)
    ensures
        r.deep_view() == seq![a@, b@, c@, d@, e@],
{
    vec![a.to_string(), b.to_string(), c.to_string(), d.to_string(), e.to_string()]
}

/// The list of six words.
pub fn words6(a: &str, b: &str, c: &str, d: &str, e: &str, f: &str) -> (r: Vec<String>)
    ensures
        r.deep_view() == seq![a@, b@, c@, d@, e@, f@],
{
    vec![a.to_string(), b.to_string(), c.to_string(), d.to_string(), e.to_string(), f.to_string()]
}

} // verus!
