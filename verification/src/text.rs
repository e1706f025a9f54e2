//! Verified text helpers over the characters of a `str`: prefixes, suffixes,
//! whitespace trimming and splitting at a character.
use vstd::prelude::*;

verus! {

/// The characters of each line.
pub open spec fn line_views(lines: Seq<String>) -> Seq<Seq<char>> {
    lines.map_values(|l: String| l@)
}

/// The characters of an optional string.
pub open spec fn opt_view(o: Option<String>) -> Option<Seq<char>> {
    match o {
        Some(s) => Some(s@),
        None => None,
    }
}

/// The value that `f` finds in the last line of `lines` where it finds one.
pub open spec fn last_match(lines: Seq<Seq<char>>, f: spec_fn(Seq<char>) -> Option<Seq<char>>) -> Option<Seq<char>>
    decreases lines.len(),
{
    if lines.len() == 0 {
        None
    } else {
        match f(lines.last()) {
            Some(v) => Some(v),
            None => last_match(lines.drop_last(), f),
        }
    }
}

/// Line `i` is the last line where `f` finds a value, and that value is `v`.
pub open spec fn is_last_match(
    lines: Seq<Seq<char>>,
    f: spec_fn(Seq<char>) -> Option<Seq<char>>,
    i: int,
    v: Seq<char>,
) -> bool {
    &&& 0 <= i < lines.len()
    &&& f(lines[i]) == Some(v)
    &&& forall|j: int| i < j < lines.len() ==> f(#[trigger] lines[j]) is None
}

/// `last_match` finds the value of the last line where `f` finds one, and
/// nothing where `f` finds nothing in any line.
pub proof fn lemma_last_match(lines: Seq<Seq<char>>, f: spec_fn(Seq<char>) -> Option<Seq<char>>)
    ensures
        match last_match(lines, f) {
            Some(v) => exists|i: int| #[trigger] is_last_match(lines, f, i, v),
            None => forall|i: int| 0 <= i < lines.len() ==> f(#[trigger] lines[i]) is None,
        },
        forall|i: int, v: Seq<char>| #[trigger] is_last_match(lines, f, i, v) ==> last_match(lines, f) == Some(v),
    decreases lines.len(),
{
    if lines.len() > 0 {
        let rest = lines.drop_last();
        lemma_last_match(rest, f);
        let n = lines.len() - 1;
        assert forall|i: int| 0 <= i < n implies lines[i] == rest[i] by {}
        match f(lines.last()) {
            Some(v) => {
                assert(is_last_match(lines, f, n, v));
                assert forall|i: int, w: Seq<char>| #[trigger] is_last_match(lines, f, i, w) implies last_match(lines, f) == Some(w) by {
                    if i < n {
                        assert(f(lines[n]) is None);
                    }
                }
            },
            None => {
                match last_match(rest, f) {
                    Some(v) => {
                        let i = choose|i: int| #[trigger] is_last_match(rest, f, i, v);
                        assert(is_last_match(lines, f, i, v));
                    },
                    None => {
                        assert forall|i: int| 0 <= i < lines.len() implies f(#[trigger] lines[i]) is None by {
                            if i < n {
                                assert(f(rest[i]) is None);
                            }
                        }
                    },
                }
                assert forall|i: int, w: Seq<char>| #[trigger] is_last_match(lines, f, i, w) implies last_match(lines, f) == Some(w) by {
                    assert(i != n);
                    assert(is_last_match(rest, f, i, w));
                }
            },
        }
    }
}

/// A line where `f` finds nothing changes nothing, wherever it is inserted.
pub proof fn lemma_last_match_insert(
    lines: Seq<Seq<char>>,
    f: spec_fn(Seq<char>) -> Option<Seq<char>>,
    pos: int,
    extra: Seq<char>,
)
    requires
        0 <= pos <= lines.len(),
        f(extra) is None,
    ensures
        last_match(lines.insert(pos, extra), f) == last_match(lines, f),
    decreases lines.len(),
{
    let grown = lines.insert(pos, extra);
    if pos == lines.len() {
        assert(grown.drop_last() =~= lines);
    } else {
        lemma_last_match_insert(lines.drop_last(), f, pos, extra);
        assert(grown.drop_last() =~= lines.drop_last().insert(pos, extra));
        assert(grown.last() == lines.last());
    }
}

/// `p` is a prefix of `s`.
pub open spec fn has_prefix(s: Seq<char>, p: Seq<char>) -> bool {
    p.len() <= s.len() && s.subrange(0, p.len() as int) == p
}

/// What is left of `s` once the prefix `p` is taken away, if `s` starts with `p`.
pub open spec fn after_prefix(s: Seq<char>, p: Seq<char>) -> Option<Seq<char>> {
    if has_prefix(s, p) {
        Some(s.subrange(p.len() as int, s.len() as int))
    } else {
        None
    }
}

/// Unicode's `White_Space` property, which `char::is_whitespace` tests.
pub open spec fn is_whitespace(c: char) -> bool {
    ||| ('\u{9}' <= c && c <= '\u{d}')
    ||| c == ' '
    ||| c == '\u{85}'
    ||| c == '\u{a0}'
    ||| c == '\u{1680}'
    ||| ('\u{2000}' <= c && c <= '\u{200a}')
    ||| c == '\u{2028}'
    ||| c == '\u{2029}'
    ||| c == '\u{202f}'
    ||| c == '\u{205f}'
    ||| c == '\u{3000}'
}

/// The index of the first character at or after `from` that is not whitespace
/// (the length of `s` if there is none).
pub open spec fn skip_whitespace(s: Seq<char>, from: int) -> int
    decreases s.len() - from,
{
    if from >= s.len() {
        s.len() as int
    } else if is_whitespace(s[from]) {
        skip_whitespace(s, from + 1)
    } else {
        from
    }
}

/// The end of `s.subrange(lo, to)` once its trailing whitespace is dropped.
pub open spec fn drop_trailing_whitespace(s: Seq<char>, lo: int, to: int) -> int
    decreases to - lo,
{
    if to <= lo {
        lo
    } else if is_whitespace(s[to - 1]) {
        drop_trailing_whitespace(s, lo, to - 1)
    } else {
        to
    }
}

/// `s` without its leading and trailing whitespace, as `str::trim` gives it.
pub open spec fn trimmed(s: Seq<char>) -> Seq<char> {
    let start = skip_whitespace(s, 0);
    s.subrange(start, drop_trailing_whitespace(s, start, s.len() as int))
}

/// `s` without its trailing whitespace, as `str::trim_end` gives it.
pub open spec fn trimmed_end(s: Seq<char>) -> Seq<char> {
    s.subrange(0, drop_trailing_whitespace(s, 0, s.len() as int))
}

/// `s` without the copies of `c` at its end, as `str::trim_end_matches` gives it
/// for a single character.
pub open spec fn without_trailing(s: Seq<char>, c: char) -> Seq<char>
    decreases s.len(),
{
    if s.len() > 0 && s.last() == c {
        without_trailing(s.drop_last(), c)
    } else {
        s
    }
}

/// `s` without one `c` at its end, if it ends with `c`, as
/// `s.strip_suffix(c).unwrap_or(s)` gives it.
pub open spec fn without_one_trailing(s: Seq<char>, c: char) -> Seq<char> {
    if s.len() > 0 && s.last() == c {
        s.drop_last()
    } else {
        s
    }
}

/// The index of the first `c` in `s` at or after `from`, if there is one.
pub open spec fn find_char(s: Seq<char>, c: char, from: int) -> Option<int>
    decreases s.len() - from,
{
    if from < 0 || from >= s.len() {
        None
    } else if s[from] == c {
        Some(from)
    } else {
        find_char(s, c, from + 1)
    }
}

/// The parts of `s` before and after its first `c`, as `str::split_once` gives them.
pub open spec fn split_at_first(s: Seq<char>, c: char) -> Option<(Seq<char>, Seq<char>)> {
    match find_char(s, c, 0) {
        Some(i) => Some((s.subrange(0, i), s.subrange(i + 1, s.len() as int))),
        None => None,
    }
}

proof fn lemma_skip_whitespace_bounds(s: Seq<char>, from: int)
    requires
        0 <= from <= s.len(),
    ensures
        from <= skip_whitespace(s, from) <= s.len(),
        forall|j: int| from <= j < skip_whitespace(s, from) ==> is_whitespace(#[trigger] s[j]),
        skip_whitespace(s, from) < s.len() ==> !is_whitespace(s[skip_whitespace(s, from)]),
    decreases s.len() - from,
{
    if from < s.len() && is_whitespace(s[from]) {
        lemma_skip_whitespace_bounds(s, from + 1);
    }
}

proof fn lemma_drop_trailing_bounds(s: Seq<char>, lo: int, to: int)
    requires
        0 <= lo <= to <= s.len(),
    ensures
        lo <= drop_trailing_whitespace(s, lo, to) <= to,
        forall|j: int| drop_trailing_whitespace(s, lo, to) <= j < to ==> is_whitespace(#[trigger] s[j]),
        drop_trailing_whitespace(s, lo, to) > lo ==> !is_whitespace(
            s[drop_trailing_whitespace(s, lo, to) - 1],
        ),
    decreases to - lo,
{
    if to > lo && is_whitespace(s[to - 1]) {
        lemma_drop_trailing_bounds(s, lo, to - 1);
    }
}

/// A text with a character that is not whitespace keeps it when trimmed:
/// only texts of whitespace alone trim to nothing.
pub proof fn lemma_trimmed_empty_iff_blank(s: Seq<char>)
    ensures
        trimmed(s).len() == 0 <==> forall|j: int| 0 <= j < s.len() ==> is_whitespace(#[trigger] s[j]),
{
    lemma_skip_whitespace_bounds(s, 0);
    let start = skip_whitespace(s, 0);
    lemma_drop_trailing_bounds(s, start, s.len() as int);
    let end = drop_trailing_whitespace(s, start, s.len() as int);
    if forall|j: int| 0 <= j < s.len() ==> is_whitespace(#[trigger] s[j]) {
        assert(start == s.len());
    } else {
        let j = choose|j: int| 0 <= j < s.len() && !is_whitespace(#[trigger] s[j]);
        assert(start <= j);
        assert(end > start);
    }
}

/// Dropping trailing whitespace keeps a prefix of the text: all that is
/// dropped is whitespace, and what is kept does not end with whitespace.
pub proof fn lemma_trimmed_end_shape(s: Seq<char>)
    ensures
        trimmed_end(s).len() <= s.len(),
        trimmed_end(s) == s.subrange(0, trimmed_end(s).len() as int),
        forall|j: int| trimmed_end(s).len() <= j < s.len() ==> is_whitespace(#[trigger] s[j]),
        trimmed_end(s).len() == 0 || !is_whitespace(trimmed_end(s).last()),
{
    lemma_drop_trailing_bounds(s, 0, s.len() as int);
}

/// Dropping trailing copies of `c` keeps a prefix of the text.
pub proof fn lemma_without_trailing_is_prefix(s: Seq<char>, c: char)
    ensures
        without_trailing(s, c).len() <= s.len(),
        without_trailing(s, c) == s.subrange(0, without_trailing(s, c).len() as int),
    decreases s.len(),
{
    if s.len() > 0 && s.last() == c {
        lemma_without_trailing_is_prefix(s.drop_last(), c);
        assert(s.drop_last().subrange(0, without_trailing(s, c).len() as int) =~= s.subrange(
            0,
            without_trailing(s, c).len() as int,
        ));
    } else {
        assert(s.subrange(0, s.len() as int) =~= s);
    }
}

proof fn lemma_find_char_bounds(s: Seq<char>, c: char, from: int)
    requires
        0 <= from,
    ensures
        find_char(s, c, from) matches Some(i) ==> from <= i < s.len() && s[i] == c
            && forall|j: int| from <= j < i ==> s[j] != c,
        find_char(s, c, from) is None ==> forall|j: int| from <= j < s.len() ==> s[j] != c,
    decreases s.len() - from,
{
    if from < s.len() && s[from] != c {
        lemma_find_char_bounds(s, c, from + 1);
    }
}

/// Splitting at the first `c`: the part before holds no `c`, and the text is
/// the part before, `c`, and the part after.
pub proof fn lemma_split_at_first_shape(s: Seq<char>, c: char)
    ensures
        split_at_first(s, c) matches Some((a, b)) ==> s == a + seq![c] + b && forall|j: int|
            0 <= j < a.len() ==> a[j] != c,
        split_at_first(s, c) is None ==> forall|j: int| 0 <= j < s.len() ==> s[j] != c,
{
    lemma_find_char_bounds(s, c, 0);
    if let Some(i) = find_char(s, c, 0) {
        assert(s =~= s.subrange(0, i) + seq![c] + s.subrange(i + 1, s.len() as int));
    }
}

/// A text that starts with `a + b` splits at the first `c` into `a` and the
/// rest, where `a` holds no `c` and `b` starts with `c`.
pub proof fn lemma_split_known(a: Seq<char>, c: char, rest: Seq<char>)
    requires
        forall|j: int| 0 <= j < a.len() ==> a[j] != c,
    ensures
        split_at_first(a + seq![c] + rest, c) == Some((a, rest)),
{
    let s = a + seq![c] + rest;
    lemma_find_char_bounds(s, c, 0);
    assert(s[a.len() as int] == c);
    match find_char(s, c, 0) {
        Some(i) => {
            if i < a.len() {
                assert(s[i] == a[i]);
            }
            assert(i == a.len());
            assert(s.subrange(0, i) =~= a);
            assert(s.subrange(i + 1, s.len() as int) =~= rest);
        },
        None => {},
    }
}

/// Whether character `c` is whitespace.
pub fn char_is_whitespace(c: char) -> (r: bool)
    ensures
        r == is_whitespace(c),
{
    ('\u{9}' <= c && c <= '\u{d}') || c == ' ' || c == '\u{85}' || c == '\u{a0}' || c
        == '\u{1680}' || ('\u{2000}' <= c && c <= '\u{200a}') || c == '\u{2028}' || c
        == '\u{2029}' || c == '\u{202f}' || c == '\u{205f}' || c == '\u{3000}'
}

/// `s` without the prefix `p`, or `None` if `s` does not start with `p`.
pub fn strip_prefix<'a>(s: &'a str, p: &str) -> (r: Option<&'a str>)
    ensures
        r matches Some(rest) ==> after_prefix(s@, p@) == Some(rest@),
        r is None ==> after_prefix(s@, p@) is None,
{
    let n = s.unicode_len();
    let m = p.unicode_len();
    if m > n {
        return None;
    }
    let mut i: usize = 0;
    while i < m
        invariant
            n == s@.len(),
            m == p@.len(),
            m <= n,
            i <= m,
            forall|j: int| 0 <= j < i ==> s@[j] == p@[j],
        decreases m - i,
    {
        if s.get_char(i) != p.get_char(i) {
            assert(s@.subrange(0, m as int)[i as int] != p@[i as int]);
            return None;
        }
        i = i + 1;
    }
    assert(s@.subrange(0, m as int) =~= p@);
    Some(s.substring_char(m, n))
}

/// Whether `a` and `b` hold the same characters.
pub fn same_text(a: &str, b: &str) -> (r: bool)
    ensures
        r == (a@ == b@),
{
    let n = a.unicode_len();
    if n != b.unicode_len() {
        return false;
    }
    let mut i: usize = 0;
    while i < n
        invariant
            n == a@.len(),
            n == b@.len(),
            i <= n,
            forall|j: int| 0 <= j < i ==> a@[j] == b@[j],
        decreases n - i,
    {
        if a.get_char(i) != b.get_char(i) {
            return false;
        }
        i = i + 1;
    }
    assert(a@ =~= b@);
    true
}

/// `s` without its trailing whitespace.
pub fn trim_end(s: &str) -> (r: &str)
    ensures
        r@ == trimmed_end(s@),
{
    let n = s.unicode_len();
    let mut end: usize = n;
    while end > 0 && char_is_whitespace(s.get_char(end - 1))
        invariant
            n == s@.len(),
            end <= n,
            drop_trailing_whitespace(s@, 0, end as int) == drop_trailing_whitespace(s@, 0, n as int),
        decreases end,
    {
        end = end - 1;
    }
    s.substring_char(0, end)
}

/// `s` without its leading and trailing whitespace.
pub fn trim(s: &str) -> (r: &str)
    ensures
        r@ == trimmed(s@),
{
    let n = s.unicode_len();
    let mut start: usize = 0;
    while start < n && char_is_whitespace(s.get_char(start))
        invariant
            n == s@.len(),
            start <= n,
            skip_whitespace(s@, start as int) == skip_whitespace(s@, 0),
        decreases n - start,
    {
        start = start + 1;
    }
    let mut end: usize = n;
    while end > start && char_is_whitespace(s.get_char(end - 1))
        invariant
            n == s@.len(),
            start <= end <= n,
            start == skip_whitespace(s@, 0),
            drop_trailing_whitespace(s@, start as int, end as int)
                == drop_trailing_whitespace(s@, start as int, n as int),
        decreases end,
    {
        end = end - 1;
    }
    s.substring_char(start, end)
}

/// `s` without the copies of `c` at its end.
pub fn trim_end_char(s: &str, c: char) -> (r: &str)
    ensures
        r@ == without_trailing(s@, c),
{
    let n = s.unicode_len();
    let mut end: usize = n;
    assert(s@.subrange(0, n as int) =~= s@);
    while end > 0 && s.get_char(end - 1) == c
        invariant
            n == s@.len(),
            end <= n,
            without_trailing(s@.subrange(0, end as int), c) == without_trailing(s@, c),
        decreases end,
    {
        assert(s@.subrange(0, end as int).drop_last() =~= s@.subrange(0, end - 1));
        end = end - 1;
    }
    s.substring_char(0, end)
}

/// `s` without one `c` at its end, if it ends with `c`.
pub fn strip_one_trailing(s: &str, c: char) -> (r: &str)
    ensures
        r@ == without_one_trailing(s@, c),
{
    let n = s.unicode_len();
    if n > 0 && s.get_char(n - 1) == c {
        s.substring_char(0, n - 1)
    } else {
        s
    }
}

/// `s` split at its first `c`, or `None` if `c` does not occur in `s`.
pub fn split_once<'a>(s: &'a str, c: char) -> (r: Option<(&'a str, &'a str)>)
    ensures
        r matches Some((a, b)) ==> split_at_first(s@, c) == Some((a@, b@)),
        r is None ==> split_at_first(s@, c) is None,
{
    let n = s.unicode_len();
    let mut i: usize = 0;
    while i < n
        invariant
            n == s@.len(),
            i <= n,
            find_char(s@, c, i as int) == find_char(s@, c, 0),
        decreases n - i,
    {
        if s.get_char(i) == c {
            return Some((s.substring_char(0, i), s.substring_char(i + 1, n)));
        }
        i = i + 1;
    }
    None
}

} // verus!
