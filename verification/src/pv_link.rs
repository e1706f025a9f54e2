//! The link from a song to its promotional video, kept in MPD's stickers.
pub mod paths;

use crate::number::{parse_i64, parsed_i64};
use crate::text::{
    after_prefix, has_prefix, is_whitespace, lemma_split_at_first_shape, lemma_split_known,
    lemma_trimmed_empty_iff_blank, lemma_without_trailing_is_prefix, is_last_match, last_match, lemma_last_match, lemma_last_match_insert, line_views,
    same_text, split_at_first, split_once, strip_prefix, trim,
    trim_end_char, trimmed, without_trailing,
};
use paths::{pv_path, resolve_pv_path};
use vstd::prelude::*;

verus! {

/// A song's video: where it lies, and where the song starts in it.
#[derive(Debug)]
pub struct PvLink {
    /// The path of the video file.
    pub path: String,
    /// The time in the video, in milliseconds, at which the song starts.
    pub start_offset_ms: i64,
    /// Where the video stops being played, in milliseconds; no sticker sets it yet.
    pub video_cutoff_ms: Option<u64>,
}

/// The name and value of the sticker on a `sticker: name=value` line.
pub open spec fn sticker_entry(line: Seq<char>) -> Option<(Seq<char>, Seq<char>)> {
    match after_prefix(line, "sticker: "@) {
        None => None,
        Some(s) => split_at_first(without_trailing(s, '\n'), '='),
    }
}

/// The value of a sticker line whose sticker is named `name`.
pub open spec fn sticker_finder(name: Seq<char>) -> spec_fn(Seq<char>) -> Option<Seq<char>> {
    |l: Seq<char>| match sticker_entry(l) {
        Some((n, v)) => if n == name {
            Some(v)
        } else {
            None
        },
        None => None,
    }
}

/// The value of the last sticker named `name`.
pub open spec fn last_sticker(lines: Seq<Seq<char>>, name: Seq<char>) -> Option<Seq<char>> {
    last_match(lines, sticker_finder(name))
}

/// The stickers are read as a list of name and value pairs (the lines that
/// are not `sticker: name=value` lines give none); the sticker named `name`
/// that counts is the last pair with that name.
pub proof fn lemma_last_sticker_is_last_pair(lines: Seq<Seq<char>>, name: Seq<char>)
    ensures
        match last_sticker(lines, name) {
            Some(v) => exists|i: int| #[trigger] is_last_match(lines, sticker_finder(name), i, v),
            None => forall|i: int|
                0 <= i < lines.len() ==> !(#[trigger] sticker_entry(lines[i]) matches Some((n, _)) && n == name),
        },
        forall|i: int, v: Seq<char>| #[trigger] is_last_match(lines, sticker_finder(name), i, v)
            ==> last_sticker(lines, name) == Some(v),
{
    lemma_last_match(lines, sticker_finder(name));
    if last_sticker(lines, name) is None {
        assert forall|i: int| 0 <= i < lines.len() implies !(#[trigger] sticker_entry(lines[i]) matches Some((n, _)) && n == name) by {
            assert(sticker_finder(name)(lines[i]) is None);
        }
    }
}

/// A line that carries no `pv` or `pv_in_ms` sticker leaves the link as it
/// is, wherever it stands among the stickers.
pub proof fn lemma_other_lines_leave_link(song_uri: Seq<char>, lines: Seq<Seq<char>>, pos: int, extra: Seq<char>)
    requires
        0 <= pos <= lines.len(),
        !(sticker_entry(extra) matches Some((n, _)) && (n == "pv"@ || n == "pv_in_ms"@)),
    ensures
        pv_link_of(song_uri, lines.insert(pos, extra)) == pv_link_of(song_uri, lines),
{
    lemma_last_match_insert(lines, sticker_finder("pv"@), pos, extra);
    lemma_last_match_insert(lines, sticker_finder("pv_in_ms"@), pos, extra);
}

/// The video offset that the stickers give: the last `pv_in_ms` sticker, read
/// as an `i64`; an unreadable last value gives none.
pub open spec fn offset_of(lines: Seq<Seq<char>>) -> Option<i64> {
    match last_sticker(lines, "pv_in_ms"@) {
        Some(v) => parsed_i64(v),
        None => None,
    }
}

/// The path and start offset of the video that the stickers of the song at
/// `song_uri` link to: there is one where the last `pv` sticker names a file
/// that is not blank, the offset can be read, and the path resolves.
pub open spec fn pv_link_of(song_uri: Seq<char>, lines: Seq<Seq<char>>) -> Option<(Seq<char>, i64)> {
    match last_sticker(lines, "pv"@) {
        None => None,
        Some(filename) => if trimmed(filename).len() == 0 {
            None
        } else {
            match offset_of(lines) {
                None => None,
                Some(offset) => match pv_path(song_uri, filename) {
                    None => None,
                    Some(path) => Some((path, offset)),
                },
            }
        },
    }
}

/// A line `sticker: <name>=<value>` (with its line feed) is the sticker
/// `name` with the whole `value`, where the name holds no `=` and the value
/// does not end with a line feed.
pub proof fn lemma_sticker_line_entry(name: Seq<char>, value: Seq<char>)
    requires
        forall|j: int| 0 <= j < name.len() ==> name[j] != '=',
        value.len() == 0 || value.last() != '\n',
    ensures
        sticker_entry("sticker: "@ + name + seq!['='] + value + seq!['\n']) == Some((name, value)),
{
    reveal_strlit("sticker: ");
    let p = "sticker: "@;
    let body = name + seq!['='] + value;
    let line = p + name + seq!['='] + value + seq!['\n'];
    assert(line =~= p + (body + seq!['\n']));
    assert(line.subrange(0, p.len() as int) =~= p);
    assert(line.subrange(p.len() as int, line.len() as int) =~= body + seq!['\n']);
    assert((body + seq!['\n']).drop_last() =~= body);
    assert(body.last() != '\n');
    assert(without_trailing(body, '\n') == body);
    assert(body =~= name + seq!['='] + value);
    lemma_split_known(name, '=', value);
}

/// A line that carries a sticker named `name` starts with
/// `sticker: <name>=`.
pub proof fn lemma_named_sticker_prefix(line: Seq<char>, name: Seq<char>)
    requires
        sticker_entry(line) matches Some((n, _)) && n == name,
    ensures
        has_prefix(line, "sticker: "@ + name + seq!['=']),
{
    let p = "sticker: "@;
    let s = line.subrange(p.len() as int, line.len() as int);
    let w = without_trailing(s, '\n');
    lemma_without_trailing_is_prefix(s, '\n');
    lemma_split_at_first_shape(w, '=');
    let (a, b) = split_at_first(w, '=').unwrap();
    assert(a == name);
    let q = p + name + seq!['='];
    assert(w == name + seq!['='] + b);
    assert forall|j: int| 0 <= j < q.len() implies line[j] == q[j] by {
        if j >= p.len() {
            let k = j - p.len();
            assert(w[k] == s[k]);
            assert(s[k] == line[j]);
        } else {
            assert(line.subrange(0, p.len() as int)[j] == line[j]);
        }
    }
    assert(line.subrange(0, q.len() as int) =~= q);
}

/// The link's file and offset come from the last `pv` and the last
/// `pv_in_ms` sticker lines, each value taken whole: where the file name has
/// a character that is not whitespace, the offset reads as an `i64` and the
/// video's path resolves, the stickers link that path with that offset.
pub proof fn lemma_link_from_last_stickers(
    song_uri: Seq<char>,
    lines: Seq<Seq<char>>,
    i: int,
    file: Seq<char>,
    k: int,
    offset_text: Seq<char>,
    offset: i64,
    path: Seq<char>,
)
    requires
        0 <= i < lines.len(),
        lines[i] == "sticker: pv="@ + file + seq!['\n'],
        file.len() > 0 && file.last() != '\n',
        exists|c: int| 0 <= c < file.len() && !is_whitespace(#[trigger] file[c]),
        forall|j: int| i < j < lines.len() ==> !has_prefix(#[trigger] lines[j], "sticker: pv="@),
        0 <= k < lines.len(),
        lines[k] == "sticker: pv_in_ms="@ + offset_text + seq!['\n'],
        offset_text.len() > 0 && offset_text.last() != '\n',
        parsed_i64(offset_text) == Some(offset),
        forall|j: int| k < j < lines.len() ==> !has_prefix(#[trigger] lines[j], "sticker: pv_in_ms="@),
        pv_path(song_uri, file) == Some(path),
    ensures
        pv_link_of(song_uri, lines) == Some((path, offset)),
{
    reveal_strlit("sticker: ");
    reveal_strlit("sticker: pv=");
    reveal_strlit("sticker: pv_in_ms=");
    reveal_strlit("pv");
    reveal_strlit("pv_in_ms");
    let pv = "pv"@;
    let pv_in_ms = "pv_in_ms"@;
    assert("sticker: pv="@ =~= "sticker: "@ + pv + seq!['=']);
    assert("sticker: pv_in_ms="@ =~= "sticker: "@ + pv_in_ms + seq!['=']);
    assert(lines[i] =~= "sticker: "@ + pv + seq!['='] + file + seq!['\n']);
    assert(lines[k] =~= "sticker: "@ + pv_in_ms + seq!['='] + offset_text + seq!['\n']);
    lemma_sticker_line_entry(pv, file);
    lemma_sticker_line_entry(pv_in_ms, offset_text);
    let f = sticker_finder(pv);
    let g = sticker_finder(pv_in_ms);
    assert forall|j: int| i < j < lines.len() implies f(#[trigger] lines[j]) is None by {
        if f(lines[j]) is Some {
            lemma_named_sticker_prefix(lines[j], pv);
        }
    }
    assert forall|j: int| k < j < lines.len() implies g(#[trigger] lines[j]) is None by {
        if g(lines[j]) is Some {
            lemma_named_sticker_prefix(lines[j], pv_in_ms);
        }
    }
    assert(is_last_match(lines, f, i, file));
    assert(is_last_match(lines, g, k, offset_text));
    lemma_last_match(lines, f);
    lemma_last_match(lines, g);
    lemma_trimmed_empty_iff_blank(file);
}

/// The name and value of a sticker line, if it is one.
fn read_sticker(line: &str) -> (r: Option<(&str, &str)>)
    ensures
        match r {
            Some((n, v)) => sticker_entry(line@) == Some((n@, v@)),
            None => sticker_entry(line@) is None,
        },
{
    match strip_prefix(line, "sticker: ") {
        None => None,
        Some(sticker) => split_once(trim_end_char(sticker, '\n'), '='),
    }
}

impl PvLink {
    /// Finds the video of the song at `song_uri` in the lines of its sticker
    /// list.
    pub fn from_stickers(song_uri: &str, stickers: &[String]) -> (r: Option<PvLink>)
        ensures
            match r {
                Some(link) => pv_link_of(song_uri@, line_views(stickers@)) == Some(
                    (link.path@, link.start_offset_ms),
                ) && link.video_cutoff_ms is None,
                None => pv_link_of(song_uri@, line_views(stickers@)) is None,
            },
    {
        let ghost views = line_views(stickers@);
        let mut filename: Option<&str> = None;
        let mut offset_text: Option<&str> = None;
        let n = stickers.len();
        let mut i: usize = 0;
        while i < n
            invariant
                n == stickers@.len(),
                i <= n,
                views == line_views(stickers@),
                match filename {
                    Some(f) => last_sticker(views.subrange(0, i as int), "pv"@) == Some(f@),
                    None => last_sticker(views.subrange(0, i as int), "pv"@) is None,
                },
                match offset_text {
                    Some(t) => last_sticker(views.subrange(0, i as int), "pv_in_ms"@) == Some(t@),
                    None => last_sticker(views.subrange(0, i as int), "pv_in_ms"@) is None,
                },
            decreases n - i,
        {
            proof {
                let next = views.subrange(0, i + 1);
                assert(next.drop_last() =~= views.subrange(0, i as int));
                assert(next.last() == stickers@[i as int]@);
                reveal_strlit("pv");
                reveal_strlit("pv_in_ms");
                assert("pv"@.len() != "pv_in_ms"@.len());
            }
            if let Some((name, value)) = read_sticker(stickers[i].as_str()) {
                if same_text(name, "pv") {
                    filename = Some(value);
                } else if same_text(name, "pv_in_ms") {
                    offset_text = Some(value);
                }
            }
            i = i + 1;
        }
        assert(views.subrange(0, n as int) =~= views);
        let filename = match filename {
            Some(f) => f,
            None => return None,
        };
        if trim(filename).unicode_len() == 0 {
            return None;
        }
        let start_offset_ms = match offset_text {
            Some(t) => match parse_i64(t) {
                Some(o) => o,
                None => return None,
            },
            None => return None,
        };
        match resolve_pv_path(song_uri, filename) {
            Some(path) => Some(PvLink { path, start_offset_ms, video_cutoff_ms: None }),
            None => None,
        }
    }
}

} // verus!
