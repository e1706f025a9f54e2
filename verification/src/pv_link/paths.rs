//! Where the video of a song lies: beside the artist's folder of the music
//! library, in a folder named after the artist with ` [pv]` appended.
use vstd::prelude::*;

verus! {

/// The root of the music library that MPD's song URIs are relative to.
pub const MUSIC_ROOT: &'static str = "/Volumes/Elm_SSD/0/iTunes Media/Music";

/// What `Path::join` gives for `base` and `part`, as text.
pub uninterp spec fn joined_path(base: Seq<char>, part: Seq<char>) -> Seq<char>;

/// What `Path::parent` gives for `path`, as text.
pub uninterp spec fn parent_path(path: Seq<char>) -> Option<Seq<char>>;

/// What `Path::file_name` gives for `path`, as text.
pub uninterp spec fn final_component(path: Seq<char>) -> Option<Seq<char>>;

/// `Path::new(base).join(part)`, as text. The contract names the result; of
/// it, it states only what `Path::join`'s documentation says plainly: a part
/// that is absolute (on Unix, that starts with `/`) replaces the base.
#[verifier::external_body]
fn join_path(base: &str, part: &str) -> (r: String)
    ensures
        r@ == joined_path(base@, part@),
        part@.len() > 0 && part@[0] == '/' ==> r@ == part@,
{
    std::path::Path::new(base).join(part).to_string_lossy().into_owned()
}

/// `Path::new(path).parent()`, as text. The contract names the result and
/// says no more of it.
#[verifier::external_body]
fn path_parent(path: &str) -> (r: Option<String>)
    ensures
        match r {
            Some(p) => parent_path(path@) == Some(p@),
            None => parent_path(path@) is None,
        },
{
    std::path::Path::new(path).parent().map(|p| p.to_string_lossy().into_owned())
}

/// `Path::new(path).file_name()`, as text. The contract names the result and
/// says no more of it.
#[verifier::external_body]
fn path_file_name(path: &str) -> (r: Option<String>)
    ensures
        match r {
            Some(p) => final_component(path@) == Some(p@),
            None => final_component(path@) is None,
        },
{
    std::path::Path::new(path).file_name().map(|p| p.to_string_lossy().into_owned())
}

/// The name of the folder that holds an artist's videos.
pub open spec fn pv_folder_name(artist: Seq<char>) -> Seq<char> {
    artist + " [pv]"@
}

/// The path of the video `pv_filename` of the song at `song_uri`: the song
/// lies in `MUSIC_ROOT/<artist>/<album>/`, the video in
/// `MUSIC_ROOT/<artist>/<artist> [pv]/`. `None` where the song's path has no
/// artist folder.
pub open spec fn pv_path(song_uri: Seq<char>, pv_filename: Seq<char>) -> Option<Seq<char>> {
    let track = joined_path(MUSIC_ROOT@, song_uri);
    match parent_path(track) {
        None => None,
        Some(album_dir) => match parent_path(album_dir) {
            None => None,
            Some(artist_dir) => match final_component(artist_dir) {
                None => None,
                Some(artist) => Some(
                    joined_path(joined_path(artist_dir, pv_folder_name(artist)), pv_filename),
                ),
            },
        },
    }
}

/// The folder of an artist's videos is named with the whole name of the
/// artist's folder, then ` [pv]`.
pub proof fn lemma_pv_folder_is_artist_then_pv(artist: Seq<char>)
    ensures
        pv_folder_name(artist).len() == artist.len() + 5,
        pv_folder_name(artist).subrange(0, artist.len() as int) == artist,
        pv_folder_name(artist).subrange(artist.len() as int, artist.len() + 5int) == seq![' ', '[', 'p', 'v', ']'],
{
    reveal_strlit(" [pv]");
    assert(pv_folder_name(artist).subrange(0, artist.len() as int) =~= artist);
    assert(pv_folder_name(artist).subrange(artist.len() as int, artist.len() + 5int) =~= seq![' ', '[', 'p', 'v', ']']);
}

/// The video lies in the folder `<artist> [pv]` beside the artist's folder,
/// where the artist's folder is the one above the song's album folder in the
/// music library.
pub proof fn lemma_pv_path_beside_artist(
    song_uri: Seq<char>,
    pv_filename: Seq<char>,
    album_dir: Seq<char>,
    artist_dir: Seq<char>,
    artist: Seq<char>,
)
    requires
        parent_path(joined_path(MUSIC_ROOT@, song_uri)) == Some(album_dir),
        parent_path(album_dir) == Some(artist_dir),
        final_component(artist_dir) == Some(artist),
    ensures
        pv_path(song_uri, pv_filename) == Some(
            joined_path(joined_path(artist_dir, artist + seq![' ', '[', 'p', 'v', ']']), pv_filename),
        ),
{
    lemma_pv_folder_is_artist_then_pv(artist);
    assert(pv_folder_name(artist) =~= artist + seq![' ', '[', 'p', 'v', ']']);
}

/// The name of the folder that holds the videos of `artist`.
pub fn pv_folder(artist: &str) -> (r: String)
    ensures
        r@ == pv_folder_name(artist@),
{
    let mut r = artist.to_owned();
    r.append(" [pv]");
    r
}

/// The path of the video `pv_filename` of the song at `song_uri`; a video
/// name that is an absolute path is that path.
pub fn resolve_pv_path(song_uri: &str, pv_filename: &str) -> (r: Option<String>)
    ensures
        match r {
            Some(p) => pv_path(song_uri@, pv_filename@) == Some(p@),
            None => pv_path(song_uri@, pv_filename@) is None,
        },
        pv_filename@.len() > 0 && pv_filename@[0] == '/' && r is Some ==> r->0@ == pv_filename@,
{
    let track = join_path(MUSIC_ROOT, song_uri);
    let album_dir = match path_parent(&track) {
        Some(d) => d,
        None => return None,
    };
    let artist_dir = match path_parent(&album_dir) {
        Some(d) => d,
        None => return None,
    };
    let artist = match path_file_name(&artist_dir) {
        Some(a) => a,
        None => return None,
    };
    let folder = join_path(&artist_dir, &pv_folder(&artist));
    Some(join_path(&folder, pv_filename))
}

} // verus!
