//! The details of one song of MPD's queue, as `playlistid` answers them.
use crate::text::{
    after_prefix, has_prefix, is_last_match, last_match, lemma_last_match, line_views, opt_view,
    strip_one_trailing, strip_prefix, without_one_trailing,
};
use vstd::prelude::*;

verus! {

/// A song of MPD's queue: the file it plays and its title, where it has one.
#[derive(Debug)]
pub struct Song {
    pub file: String,
    pub title: Option<String>,
}

/// Why a song reply could not be read.
#[derive(Debug, PartialEq, Eq, Structural)]
pub enum SongError {
    /// No line of the reply names the song's file.
    MissingFile,
}

/// The text of a reply line without its line feed.
pub open spec fn line_text(line: Seq<char>) -> Seq<char> {
    without_one_trailing(line, '\n')
}

/// The value of a line that starts with `key`, once its line feed is dropped.
pub open spec fn field_finder(key: Seq<char>) -> spec_fn(Seq<char>) -> Option<Seq<char>> {
    |l: Seq<char>| after_prefix(line_text(l), key)
}

/// The value of the last line of `lines` that starts with `key`.
pub open spec fn last_field(lines: Seq<Seq<char>>, key: Seq<char>) -> Option<Seq<char>> {
    last_match(lines, field_finder(key))
}

/// A field is present exactly when some line (without its line feed) starts
/// with its key, and then its value is that of the last such line. For the
/// song this means: the reply is read exactly when some line names the file;
/// the file is that of the last `file: ` line and the title that of the last
/// `Title: ` line, or none where no line has one.
pub proof fn lemma_last_field(lines: Seq<Seq<char>>, key: Seq<char>)
    ensures
        last_field(lines, key) is Some <==> exists|i: int|
            0 <= i < lines.len() && #[trigger] has_prefix(line_text(lines[i]), key),
        last_field(lines, key) matches Some(v) ==> exists|i: int|
            #[trigger] is_last_match(lines, field_finder(key), i, v),
        forall|i: int, v: Seq<char>| #[trigger] is_last_match(lines, field_finder(key), i, v)
            ==> last_field(lines, key) == Some(v),
{
    lemma_last_match(lines, field_finder(key));
    if let Some(v) = last_field(lines, key) {
        let i = choose|i: int| #[trigger] is_last_match(lines, field_finder(key), i, v);
        assert(has_prefix(line_text(lines[i]), key));
    }
}

pub open spec fn file_key() -> Seq<char> {
    "file: "@
}

pub open spec fn title_key() -> Seq<char> {
    "Title: "@
}

/// A field's value is the whole text after its key on the last line that
/// starts with the key, without that line's line feed.
pub proof fn lemma_field_is_rest_of_last_line(lines: Seq<Seq<char>>, key: Seq<char>, i: int, v: Seq<char>)
    requires
        0 <= i < lines.len(),
        lines[i] == key + v + seq!['\n'] || (lines[i] == key + v && v.len() > 0 && v.last() != '\n'),
        forall|j: int|
            i < j < lines.len() ==> !(lines[j].len() >= key.len() && #[trigger] lines[j].subrange(
                0,
                key.len() as int,
            ) == key),
    ensures
        last_field(lines, key) == Some(v),
{
    let f = field_finder(key);
    let l = lines[i];
    if l == key + v + seq!['\n'] {
        assert(line_text(l) =~= key + v);
    } else {
        assert(l.last() == v.last());
        assert(line_text(l) =~= key + v);
    }
    assert(line_text(l).subrange(0, key.len() as int) =~= key);
    assert(line_text(l).subrange(key.len() as int, line_text(l).len() as int) =~= v);
    assert forall|j: int| i < j < lines.len() implies f(#[trigger] lines[j]) is None by {
        let t = line_text(lines[j]);
        if has_prefix(t, key) {
            assert(lines[j].subrange(0, key.len() as int) =~= t.subrange(0, key.len() as int));
        }
    }
    assert(is_last_match(lines, f, i, v));
    lemma_last_match(lines, f);
}

/// The song's file is the whole text after `file: ` on the last line with
/// that key, and its title the whole text after `Title: ` on the last line
/// with that key.
pub proof fn lemma_song_fields_are_rest_of_lines(lines: Seq<Seq<char>>, i: int, v: Seq<char>, k: int, w: Seq<char>)
    requires
        0 <= i < lines.len(),
        lines[i] == "file: "@ + v + seq!['\n'],
        forall|j: int| i < j < lines.len() ==> !has_prefix(#[trigger] lines[j], "file: "@),
        0 <= k < lines.len(),
        lines[k] == "Title: "@ + w + seq!['\n'],
        forall|j: int| k < j < lines.len() ==> !has_prefix(#[trigger] lines[j], "Title: "@),
    ensures
        last_field(lines, file_key()) == Some(v),
        last_field(lines, title_key()) == Some(w),
{
    lemma_field_is_rest_of_last_line(lines, "file: "@, i, v);
    lemma_field_is_rest_of_last_line(lines, "Title: "@, k, w);
}

impl Song {
    /// Reads a song from the lines of MPD's reply: the last `file: ` line gives
    /// the file and the last `Title: ` line the title; a reply without a file
    /// is refused.
    pub fn parse(lines: &[String]) -> (r: Result<Song, SongError>)
        ensures
            r matches Ok(song) ==> Some(song.file@) == last_field(line_views(lines@), file_key())
                && opt_view(song.title) == last_field(line_views(lines@), title_key()),
            r is Err <==> last_field(line_views(lines@), file_key()) is None,
            r matches Err(e) ==> e == SongError::MissingFile,
    {
        let ghost views = line_views(lines@);
        let mut file: Option<String> = None;
        let mut title: Option<String> = None;
        let n = lines.len();
        let mut i: usize = 0;
        while i < n
            invariant
                n == lines@.len(),
                i <= n,
                views == line_views(lines@),
                opt_view(file) == last_field(views.subrange(0, i as int), file_key()),
                opt_view(title) == last_field(views.subrange(0, i as int), title_key()),
            decreases n - i,
        {
            let line = strip_one_trailing(lines[i].as_str(), '\n');
            proof {
                let next = views.subrange(0, i + 1);
                assert(next.drop_last() =~= views.subrange(0, i as int));
                assert(next.last() == lines@[i as int]@);
            }
            if let Some(value) = strip_prefix(line, "file: ") {
                file = Some(value.to_owned());
            }
            if let Some(value) = strip_prefix(line, "Title: ") {
                title = Some(value.to_owned());
            }
            i = i + 1;
        }
        assert(views.subrange(0, n as int) =~= views);
        match file {
            Some(file) => Ok(Song { file, title }),
            None => Err(SongError::MissingFile),
        }
    }
}

} // verus!
