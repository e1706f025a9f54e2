//! MPD's player status, as the `status` command answers it.
use crate::number::{parse_u32, parsed_u32};
use crate::text::{
    after_prefix, has_prefix, last_match, line_views, same_text, split_at_first, split_once, strip_prefix, trim, trimmed,
};
use std::time::Duration;
use vstd::prelude::*;

verus! {

/// What MPD's player is doing.
#[derive(Debug, Clone, Copy, PartialEq, Eq, Structural)]
pub enum PlaybackState {
    Playing,
    Paused,
    Stopped,
}

/// The fields of MPD's status that this program reads; a field that the reply
/// does not carry stays `None`.
#[derive(Debug)]
pub struct Status {
    pub sample_rate_hz: Option<u32>,
    pub next_song_id: Option<u32>,
    pub song_id: Option<u32>,
    pub elapsed: Option<Duration>,
    pub duration: Option<Duration>,
    pub state: Option<PlaybackState>,
}

/// Why a time value could not be read.
#[derive(Debug, Clone, Copy, PartialEq, Eq, Structural)]
pub enum TimeError {
    /// The text is not a number.
    NotANumber,
    /// The number is negative, or too large for a duration.
    OutOfRange,
}

/// Why a status reply could not be read.
#[derive(Debug)]
pub enum StatusError {
    /// The current song ID is not a `u32`.
    InvalidSongId,
    /// An elapsed time or a duration is not a time value.
    InvalidTime(TimeError),
    /// The playback state is none of `play`, `pause` and `stop`; it holds the
    /// trimmed value.
    UnknownState(String),
    /// The next song ID is not a `u32`.
    InvalidNextSongId,
    /// The audio format has no `:`.
    MissingAudioSeparator,
    /// The sample rate in the audio format is not a `u32`.
    InvalidSampleRate,
}

/// A `StatusError` with its text taken by its characters.
pub enum StatusFault {
    InvalidSongId,
    InvalidTime(TimeError),
    UnknownState(Seq<char>),
    InvalidNextSongId,
    MissingAudioSeparator,
    InvalidSampleRate,
}

impl View for StatusError {
    type V = StatusFault;

    open spec fn view(&self) -> StatusFault {
        match self {
            StatusError::InvalidSongId => StatusFault::InvalidSongId,
            StatusError::InvalidTime(e) => StatusFault::InvalidTime(*e),
            StatusError::UnknownState(s) => StatusFault::UnknownState(s@),
            StatusError::InvalidNextSongId => StatusFault::InvalidNextSongId,
            StatusError::MissingAudioSeparator => StatusFault::MissingAudioSeparator,
            StatusError::InvalidSampleRate => StatusFault::InvalidSampleRate,
        }
    }
}

/// What `str::parse::<f64>` and then `Duration::try_from_secs_f64` give for
/// a text of seconds.
pub uninterp spec fn duration_of_seconds_text(text: Seq<char>) -> Result<Duration, TimeError>;

/// Reads `text` as a number of seconds with `str::parse::<f64>`, then turns
/// it into a `Duration` with `Duration::try_from_secs_f64`. The contract names
/// the result and says no more of it: which texts the float parser takes, and
/// how it rounds, is std's.
#[verifier::external_body]
fn duration_from_seconds_text(text: &str) -> (r: Result<Duration, TimeError>)
    ensures
        r == duration_of_seconds_text(text@),
{
    match text.parse() {
        Err(_) => Err(TimeError::NotANumber),
        Ok(seconds) => match Duration::try_from_secs_f64(seconds) {
            Ok(d) => Ok(d),
            Err(_) => Err(TimeError::OutOfRange),
        },
    }
}

/// The duration that an elapsed time or a duration of MPD's status gives: the
/// value without surrounding whitespace, read as seconds.
pub open spec fn time_value(value: Seq<char>) -> Result<Duration, TimeError> {
    duration_of_seconds_text(trimmed(value))
}

/// Reads a time value of MPD's status: the seconds, trimmed, as a duration.
pub fn parse_duration(value: &str) -> (r: Result<Duration, TimeError>)
    ensures
        r == time_value(value@),
{
    duration_from_seconds_text(trim(value))
}

/// What one line of the reply says.
pub enum LineEffect {
    Nothing,
    SongId(u32),
    Elapsed(Duration),
    Length(Duration),
    State(PlaybackState),
    NextSongId(u32),
    SampleRate(u32),
    Fails(StatusFault),
}

/// The playback state that a trimmed `state` value names.
pub open spec fn state_named(v: Seq<char>) -> Option<PlaybackState> {
    if v == "play"@ {
        Some(PlaybackState::Playing)
    } else if v == "pause"@ {
        Some(PlaybackState::Paused)
    } else if v == "stop"@ {
        Some(PlaybackState::Stopped)
    } else {
        None
    }
}

/// What a line of MPD's status reply says, by the key that it starts with.
pub open spec fn line_effect(line: Seq<char>) -> LineEffect {
    if let Some(v) = after_prefix(line, "songid: "@) {
        match parsed_u32(trimmed(v)) {
            Some(id) => LineEffect::SongId(id),
            None => LineEffect::Fails(StatusFault::InvalidSongId),
        }
    } else if let Some(v) = after_prefix(line, "elapsed: "@) {
        match time_value(v) {
            Ok(d) => LineEffect::Elapsed(d),
            Err(e) => LineEffect::Fails(StatusFault::InvalidTime(e)),
        }
    } else if let Some(v) = after_prefix(line, "duration: "@) {
        match time_value(v) {
            Ok(d) => LineEffect::Length(d),
            Err(e) => LineEffect::Fails(StatusFault::InvalidTime(e)),
        }
    } else if let Some(v) = after_prefix(line, "state: "@) {
        match state_named(trimmed(v)) {
            Some(s) => LineEffect::State(s),
            None => LineEffect::Fails(StatusFault::UnknownState(trimmed(v))),
        }
    } else if let Some(v) = after_prefix(line, "nextsongid: "@) {
        match parsed_u32(trimmed(v)) {
            Some(id) => LineEffect::NextSongId(id),
            None => LineEffect::Fails(StatusFault::InvalidNextSongId),
        }
    } else if let Some(v) = after_prefix(line, "audio: "@) {
        match split_at_first(trimmed(v), ':') {
            None => LineEffect::Fails(StatusFault::MissingAudioSeparator),
            Some((rate, _)) => match parsed_u32(rate) {
                Some(hz) => LineEffect::SampleRate(hz),
                None => LineEffect::Fails(StatusFault::InvalidSampleRate),
            },
        }
    } else {
        LineEffect::Nothing
    }
}

/// A status with no field set.
pub open spec fn empty_status() -> Status {
    Status {
        sample_rate_hz: None,
        next_song_id: None,
        song_id: None,
        elapsed: None,
        duration: None,
        state: None,
    }
}

/// `st` with what the line says written over it.
pub open spec fn apply_effect(st: Status, e: LineEffect) -> Result<Status, StatusFault> {
    match e {
        LineEffect::Nothing => Ok(st),
        LineEffect::SongId(id) => Ok(Status { song_id: Some(id), ..st }),
        LineEffect::Elapsed(d) => Ok(Status { elapsed: Some(d), ..st }),
        LineEffect::Length(d) => Ok(Status { duration: Some(d), ..st }),
        LineEffect::State(s) => Ok(Status { state: Some(s), ..st }),
        LineEffect::NextSongId(id) => Ok(Status { next_song_id: Some(id), ..st }),
        LineEffect::SampleRate(hz) => Ok(Status { sample_rate_hz: Some(hz), ..st }),
        LineEffect::Fails(f) => Err(f),
    }
}

/// The status that the reply lines give, read in order: each line writes its
/// field over what earlier lines wrote, and the first line that cannot be
/// read decides the error.
pub open spec fn status_of(lines: Seq<Seq<char>>) -> Result<Status, StatusFault>
    decreases lines.len(),
{
    if lines.len() == 0 {
        Ok(empty_status())
    } else {
        match status_of(lines.drop_last()) {
            Ok(st) => apply_effect(st, line_effect(lines.last())),
            Err(f) => Err(f),
        }
    }
}

impl Default for Status {
    fn default() -> (r: Status)
        ensures
            r == empty_status(),
    {
        Status {
            sample_rate_hz: None,
            next_song_id: None,
            song_id: None,
            elapsed: None,
            duration: None,
            state: None,
        }
    }
}

/// Reads what one line of the reply says.
fn read_line(line: &str) -> (r: Result<LineEffect, StatusError>)
    ensures
        match r {
            Ok(e) => e == line_effect(line@) && !(e is Fails),
            Err(err) => line_effect(line@) == LineEffect::Fails(err@),
        },
{
    if let Some(value) = strip_prefix(line, "songid: ") {
        match parse_u32(trim(value)) {
            Some(id) => Ok(LineEffect::SongId(id)),
            None => Err(StatusError::InvalidSongId),
        }
    } else if let Some(value) = strip_prefix(line, "elapsed: ") {
        match parse_duration(value) {
            Ok(d) => Ok(LineEffect::Elapsed(d)),
            Err(e) => Err(StatusError::InvalidTime(e)),
        }
    } else if let Some(value) = strip_prefix(line, "duration: ") {
        match parse_duration(value) {
            Ok(d) => Ok(LineEffect::Length(d)),
            Err(e) => Err(StatusError::InvalidTime(e)),
        }
    } else if let Some(value) = strip_prefix(line, "state: ") {
        let v = trim(value);
        if same_text(v, "play") {
            Ok(LineEffect::State(PlaybackState::Playing))
        } else if same_text(v, "pause") {
            Ok(LineEffect::State(PlaybackState::Paused))
        } else if same_text(v, "stop") {
            Ok(LineEffect::State(PlaybackState::Stopped))
        } else {
            Err(StatusError::UnknownState(v.to_owned()))
        }
    } else if let Some(value) = strip_prefix(line, "nextsongid: ") {
        match parse_u32(trim(value)) {
            Some(id) => Ok(LineEffect::NextSongId(id)),
            None => Err(StatusError::InvalidNextSongId),
        }
    } else if let Some(value) = strip_prefix(line, "audio: ") {
        match split_once(trim(value), ':') {
            None => Err(StatusError::MissingAudioSeparator),
            Some((rate, _)) => match parse_u32(rate) {
                Some(hz) => Ok(LineEffect::SampleRate(hz)),
                None => Err(StatusError::InvalidSampleRate),
            },
        }
    } else {
        Ok(LineEffect::Nothing)
    }
}

impl Status {
    /// Reads the status from the lines of MPD's reply. Each known key sets its
    /// field, a later line over an earlier one; unknown lines are passed over;
    /// the first line whose value cannot be read makes the error.
    pub fn parse(lines: &[String]) -> (r: Result<Status, StatusError>)
        ensures
            match r {
                Ok(st) => status_of(line_views(lines@)) == Ok::<Status, StatusFault>(st),
                Err(e) => status_of(line_views(lines@)) == Err::<Status, StatusFault>(e@),
            },
    {
        let ghost views = line_views(lines@);
        let mut status = Status::default();
        let n = lines.len();
        let mut i: usize = 0;
        while i < n
            invariant
                n == lines@.len(),
                i <= n,
                views == line_views(lines@),
                status_of(views.subrange(0, i as int)) == Ok::<Status, StatusFault>(status),
            decreases n - i,
        {
            proof {
                let next = views.subrange(0, i + 1);
                assert(next.drop_last() =~= views.subrange(0, i as int));
                assert(next.last() == lines@[i as int]@);
            }
            match read_line(lines[i].as_str()) {
                Err(e) => {
                    proof {
                        lemma_error_persists(views, i as int + 1);
                    }
                    return Err(e);
                },
                Ok(effect) => {
                    status = match effect {
                        LineEffect::SongId(id) => Status { song_id: Some(id), ..status },
                        LineEffect::Elapsed(d) => Status { elapsed: Some(d), ..status },
                        LineEffect::Length(d) => Status { duration: Some(d), ..status },
                        LineEffect::State(s) => Status { state: Some(s), ..status },
                        LineEffect::NextSongId(id) => Status { next_song_id: Some(id), ..status },
                        LineEffect::SampleRate(hz) => Status { sample_rate_hz: Some(hz), ..status },
                        _ => status,
                    };
                },
            }
            i = i + 1;
        }
        assert(views.subrange(0, n as int) =~= views);
        Ok(status)
    }
}

/// The value of a status line that starts with `key`.
pub open spec fn key_finder(key: Seq<char>) -> spec_fn(Seq<char>) -> Option<Seq<char>> {
    |l: Seq<char>| after_prefix(l, key)
}

/// The value of the last line of the reply that starts with `key`.
pub open spec fn last_keyed(lines: Seq<Seq<char>>, key: Seq<char>) -> Option<Seq<char>> {
    last_match(lines, key_finder(key))
}

/// The `u32` of the last line with `key`, where there is one.
pub open spec fn last_id(lines: Seq<Seq<char>>, key: Seq<char>) -> Option<u32> {
    match last_keyed(lines, key) {
        Some(v) => parsed_u32(trimmed(v)),
        None => None,
    }
}

/// The time value of the last line with `key`, where there is one.
pub open spec fn last_time(lines: Seq<Seq<char>>, key: Seq<char>) -> Option<Duration> {
    match last_keyed(lines, key) {
        Some(v) => match time_value(v) {
            Ok(d) => Some(d),
            Err(_) => None,
        },
        None => None,
    }
}

/// The playback state of the last `state` line, where there is one.
pub open spec fn last_state(lines: Seq<Seq<char>>) -> Option<PlaybackState> {
    match last_keyed(lines, "state: "@) {
        Some(v) => state_named(trimmed(v)),
        None => None,
    }
}

/// The sample rate of the last `audio` line, where there is one.
pub open spec fn last_sample_rate(lines: Seq<Seq<char>>) -> Option<u32> {
    match last_keyed(lines, "audio: "@) {
        Some(v) => match split_at_first(trimmed(v), ':') {
            Some((rate, _)) => parsed_u32(rate),
            None => None,
        },
        None => None,
    }
}

proof fn lemma_prefixes_agree(line: Seq<char>, a: Seq<char>, b: Seq<char>, i: int)
    requires
        has_prefix(line, a),
        has_prefix(line, b),
        0 <= i < a.len(),
        i < b.len(),
    ensures
        a[i] == b[i],
{
    assert(line.subrange(0, a.len() as int)[i] == line[i]);
    assert(line.subrange(0, b.len() as int)[i] == line[i]);
}

/// No line starts with two of the keys of a status reply.
proof fn lemma_one_key_per_line(line: Seq<char>)
    ensures
        !(has_prefix(line, "songid: "@) && has_prefix(line, "elapsed: "@)),
        !(has_prefix(line, "songid: "@) && has_prefix(line, "duration: "@)),
        !(has_prefix(line, "songid: "@) && has_prefix(line, "state: "@)),
        !(has_prefix(line, "songid: "@) && has_prefix(line, "nextsongid: "@)),
        !(has_prefix(line, "songid: "@) && has_prefix(line, "audio: "@)),
        !(has_prefix(line, "elapsed: "@) && has_prefix(line, "duration: "@)),
        !(has_prefix(line, "elapsed: "@) && has_prefix(line, "state: "@)),
        !(has_prefix(line, "elapsed: "@) && has_prefix(line, "nextsongid: "@)),
        !(has_prefix(line, "elapsed: "@) && has_prefix(line, "audio: "@)),
        !(has_prefix(line, "duration: "@) && has_prefix(line, "state: "@)),
        !(has_prefix(line, "duration: "@) && has_prefix(line, "nextsongid: "@)),
        !(has_prefix(line, "duration: "@) && has_prefix(line, "audio: "@)),
        !(has_prefix(line, "state: "@) && has_prefix(line, "nextsongid: "@)),
        !(has_prefix(line, "state: "@) && has_prefix(line, "audio: "@)),
        !(has_prefix(line, "nextsongid: "@) && has_prefix(line, "audio: "@)),
{
    reveal_strlit("songid: ");
    reveal_strlit("elapsed: ");
    reveal_strlit("duration: ");
    reveal_strlit("state: ");
    reveal_strlit("nextsongid: ");
    reveal_strlit("audio: ");
    let keys = seq!["songid: "@, "elapsed: "@, "duration: "@, "state: "@, "nextsongid: "@, "audio: "@];
    assert forall|a: int, b: int| 0 <= a < b < 6 implies !(has_prefix(line, #[trigger] keys[a]) && has_prefix(line, #[trigger] keys[b])) by {
        if has_prefix(line, keys[a]) && has_prefix(line, keys[b]) {
            lemma_prefixes_agree(line, keys[a], keys[b], 0);
            lemma_prefixes_agree(line, keys[a], keys[b], 1);
        }
    }
    assert(keys[0] == "songid: "@);
    assert(keys[1] == "elapsed: "@);
    assert(keys[2] == "duration: "@);
    assert(keys[3] == "state: "@);
    assert(keys[4] == "nextsongid: "@);
    assert(keys[5] == "audio: "@);
}

/// Every field of a status that is read comes from the last line with its
/// key, and is `None` where no line has that key.
pub proof fn lemma_fields_from_last_lines(lines: Seq<Seq<char>>)
    ensures
        status_of(lines) matches Ok(st) ==> {
            &&& st.song_id == last_id(lines, "songid: "@)
            &&& st.elapsed == last_time(lines, "elapsed: "@)
            &&& st.duration == last_time(lines, "duration: "@)
            &&& st.state == last_state(lines)
            &&& st.next_song_id == last_id(lines, "nextsongid: "@)
            &&& st.sample_rate_hz == last_sample_rate(lines)
        },
    decreases lines.len(),
{
    if lines.len() > 0 {
        let rest = lines.drop_last();
        let l = lines.last();
        lemma_fields_from_last_lines(rest);
        lemma_one_key_per_line(l);
    }
}

/// A `state: ` line names the playback state by its trimmed value: `play`,
/// `pause` or `stop`; any other value refuses the reply with that value.
pub proof fn lemma_state_line(v: Seq<char>)
    ensures
        trimmed(v) == seq!['p', 'l', 'a', 'y'] ==> line_effect("state: "@ + v) == LineEffect::State(
            PlaybackState::Playing,
        ),
        trimmed(v) == seq!['p', 'a', 'u', 's', 'e'] ==> line_effect("state: "@ + v) == LineEffect::State(
            PlaybackState::Paused,
        ),
        trimmed(v) == seq!['s', 't', 'o', 'p'] ==> line_effect("state: "@ + v) == LineEffect::State(
            PlaybackState::Stopped,
        ),
        trimmed(v) != seq!['p', 'l', 'a', 'y'] && trimmed(v) != seq!['p', 'a', 'u', 's', 'e']
            && trimmed(v) != seq!['s', 't', 'o', 'p'] ==> line_effect("state: "@ + v) == LineEffect::Fails(
            StatusFault::UnknownState(trimmed(v)),
        ),
{
    reveal_strlit("state: ");
    reveal_strlit("play");
    reveal_strlit("pause");
    reveal_strlit("stop");
    let line = "state: "@ + v;
    assert("play"@ =~= seq!['p', 'l', 'a', 'y']);
    assert("pause"@ =~= seq!['p', 'a', 'u', 's', 'e']);
    assert("stop"@ =~= seq!['s', 't', 'o', 'p']);
    assert(line.subrange(0, 7) =~= "state: "@);
    assert(line.subrange(7, line.len() as int) =~= v);
    lemma_one_key_per_line(line);
}

/// A reply is refused exactly when one of its lines cannot be read, and the
/// error is that of the first such line.
pub proof fn lemma_error_from_first_bad_line(lines: Seq<Seq<char>>)
    ensures
        status_of(lines) is Err <==> exists|i: int|
            0 <= i < lines.len() && #[trigger] line_effect(lines[i]) is Fails,
        status_of(lines) matches Err(f) ==> exists|i: int|
            0 <= i < lines.len() && #[trigger] line_effect(lines[i]) == LineEffect::Fails(f)
                && forall|j: int| 0 <= j < i ==> !(#[trigger] line_effect(lines[j]) is Fails),
    decreases lines.len(),
{
    if lines.len() > 0 {
        let rest = lines.drop_last();
        let n = lines.len() - 1;
        lemma_error_from_first_bad_line(rest);
        assert forall|i: int| 0 <= i < n implies lines[i] == rest[i] by {}
        if let Err(f) = status_of(rest) {
            let i = choose|i: int|
                0 <= i < rest.len() && #[trigger] line_effect(rest[i]) == LineEffect::Fails(f)
                    && forall|j: int| 0 <= j < i ==> !(#[trigger] line_effect(rest[j]) is Fails);
            assert(line_effect(lines[i]) == LineEffect::Fails(f));
            assert forall|j: int| 0 <= j < i implies !(#[trigger] line_effect(lines[j]) is Fails) by {
                assert(lines[j] == rest[j]);
            }
        } else {
            assert forall|i: int| 0 <= i < n implies !(#[trigger] line_effect(lines[i]) is Fails) by {
                assert(lines[i] == rest[i]);
                if line_effect(rest[i]) is Fails {
                    assert(exists|k: int| 0 <= k < rest.len() && #[trigger] line_effect(rest[k]) is Fails);
                }
            }
        }
    }
}

/// Once a prefix of the reply fails, the whole reply fails with that error.
proof fn lemma_error_persists(views: Seq<Seq<char>>, k: int)
    requires
        0 <= k <= views.len(),
        status_of(views.subrange(0, k)) is Err,
    ensures
        status_of(views) == status_of(views.subrange(0, k)),
    decreases views.len() - k,
{
    if k < views.len() {
        let next = views.subrange(0, k + 1);
        assert(next.drop_last() =~= views.subrange(0, k));
        lemma_error_persists(views, k + 1);
    } else {
        assert(views.subrange(0, k) =~= views);
    }
}

} // verus!
