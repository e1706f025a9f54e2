//! The decisions of the playback loop. The loop polls MPD's status; when the
//! song that MPD plays changes it looks up that song's video and opens it in
//! mpv; while the video belongs to the song that plays it reports, whenever
//! the report changes, where in the video the song is. The loop itself, which
//! talks to MPD and mpv and sleeps between polls, is the program's.
use crate::mpd::status::{PlaybackState, Status};
use crate::mpd::song::Song;
use crate::pv_link::PvLink;
use crate::text::{line_views, same_text};
use crate::pv_link::pv_link_of;
use std::time::Duration;
use vstd::prelude::*;

verus! {

/// What the loop does about the current song after a status poll.
#[derive(Debug, Clone, Copy, PartialEq, Eq, Structural)]
pub enum CurrentSong {
    /// MPD plays the song seen before: nothing to do.
    Unchanged,
    /// MPD plays another song: fetch the song with this queue ID.
    Fetch(u32),
    /// MPD reports no current song any more.
    NoneReported,
}

/// What the player does while a video waits for its song.
#[derive(Debug, Clone, Copy, PartialEq, Eq, Structural)]
pub enum Activity {
    Playing,
    Paused,
}

impl Activity {
    /// The word that reports the activity.
    pub fn label(&self) -> (r: &'static str)
        ensures
            r@ == activity_label(*self),
    {
        match self {
            Activity::Playing => "Playing",
            Activity::Paused => "Paused",
        }
    }
}

pub open spec fn activity_label(a: Activity) -> Seq<char> {
    match a {
        Activity::Playing => "Playing"@,
        Activity::Paused => "Paused"@,
    }
}

/// The activity that a playback state reports, if it reports one.
pub open spec fn activity_of(state: Option<PlaybackState>) -> Option<Activity> {
    match state {
        Some(PlaybackState::Playing) => Some(Activity::Playing),
        Some(PlaybackState::Paused) => Some(Activity::Paused),
        _ => None,
    }
}

/// The activity that a playback state reports, if it reports one.
pub fn activity(state: Option<PlaybackState>) -> (r: Option<Activity>)
    ensures
        r == activity_of(state),
{
    match state {
        Some(PlaybackState::Playing) => Some(Activity::Playing),
        Some(PlaybackState::Paused) => Some(Activity::Paused),
        _ => None,
    }
}

/// What a report on the video's position is made from.
pub struct Countdown {
    /// How far the song has played.
    pub elapsed: Duration,
    /// Where the song starts in the video, in milliseconds.
    pub start_offset_ms: i64,
    pub activity: Activity,
}

/// A video: its path, where the song starts in it, and where it is cut off.
pub open spec fn link_view(link: PvLink) -> (Seq<char>, i64, Option<u64>) {
    (link.path@, link.start_offset_ms, link.video_cutoff_ms)
}

/// The state of the loop, by what the decisions read of it.
pub struct PlaybackView {
    /// The song ID that the last change reported.
    pub song_seen: Option<u32>,
    /// The video of that song, if it has one.
    pub video: Option<(Seq<char>, i64, Option<u64>)>,
    /// The last report that was shown.
    pub shown: Seq<char>,
}

/// What the loop carries from one poll to the next.
pub struct Playback {
    previous_song_id: Option<u32>,
    current_pv: Option<PvLink>,
    previous_display: String,
}

impl View for Playback {
    type V = PlaybackView;

    closed spec fn view(&self) -> PlaybackView {
        PlaybackView {
            song_seen: self.previous_song_id,
            video: match self.current_pv {
                Some(link) => Some(link_view(link)),
                None => None,
            },
            shown: self.previous_display@,
        }
    }
}

/// The state after a poll that reports `song` as the song that plays.
pub open spec fn after_status(v: PlaybackView, song: Option<u32>) -> PlaybackView {
    if song == v.song_seen {
        v
    } else {
        PlaybackView { song_seen: song, video: None, ..v }
    }
}

/// What to do about the song that plays after a poll that reports `song`.
pub open spec fn song_action(v: PlaybackView, song: Option<u32>) -> CurrentSong {
    if song == v.song_seen {
        CurrentSong::Unchanged
    } else {
        match song {
            Some(id) => CurrentSong::Fetch(id),
            None => CurrentSong::NoneReported,
        }
    }
}

/// The video that the stickers of the song at `song_uri` give, as kept: no
/// sticker sets a cutoff.
pub open spec fn video_of(song_uri: Seq<char>, stickers: Seq<Seq<char>>) -> Option<(Seq<char>, i64, Option<u64>)> {
    match pv_link_of(song_uri, stickers) {
        Some((path, offset)) => Some((path, offset, None)),
        None => None,
    }
}

/// The state after a report is made, and whether it is shown: only a report
/// that differs from the last one shown is.
pub open spec fn after_report(v: PlaybackView, report: Seq<char>) -> (PlaybackView, bool) {
    if report == v.shown {
        (v, false)
    } else {
        (PlaybackView { shown: report, ..v }, true)
    }
}

/// What a report is made from, where one is due: the song that plays has a
/// video, the status has the song's elapsed time, and the player plays or is
/// paused.
pub open spec fn countdown_due(v: PlaybackView, status: Status) -> Option<(Duration, i64, Activity)> {
    match (v.video, status.elapsed, activity_of(status.state)) {
        (Some((_, offset, _)), Some(e), Some(a)) => Some((e, offset, a)),
        _ => None,
    }
}

/// The song's name in the "now playing" report: its title, or its file where it
/// has no title.
pub open spec fn song_label(song: Song) -> Seq<char> {
    match song.title {
        Some(t) => t@,
        None => song.file@,
    }
}

/// The song's name in the "now playing" report.
pub fn now_playing_label(song: &Song) -> (r: &str)
    ensures
        r@ == song_label(*song),
{
    match &song.title {
        Some(t) => t.as_str(),
        None => song.file.as_str(),
    }
}

impl Playback {
    /// The state before the first poll: no song seen, no video, nothing shown.
    pub fn new() -> (r: Playback)
        ensures
            r@ == (PlaybackView { song_seen: None, video: None, shown: Seq::empty() }),
    {
        Playback { previous_song_id: None, current_pv: None, previous_display: String::new() }
    }

    /// Takes a status poll and says what to do about the song that MPD
    /// plays, by the status's current song ID. A change of song forgets the
    /// video of the song before.
    pub fn observe_status(&mut self, status: &Status) -> (r: CurrentSong)
        ensures
            r == song_action(old(self)@, status.song_id),
            final(self)@ == after_status(old(self)@, status.song_id),
    {
        let song_id = status.song_id;
        if song_id == self.previous_song_id {
            return CurrentSong::Unchanged;
        }
        self.current_pv = None;
        self.previous_song_id = song_id;
        match song_id {
            Some(id) => CurrentSong::Fetch(id),
            None => CurrentSong::NoneReported,
        }
    }

    /// Takes the stickers of the song that plays, at `song_uri`, and keeps the
    /// video that they link to, if any.
    pub fn choose_pv(&mut self, song_uri: &str, stickers: &[String])
        ensures
            final(self)@ == (PlaybackView { video: video_of(song_uri@, line_views(stickers@)), ..old(self)@ }),
    {
        let link = PvLink::from_stickers(song_uri, stickers);
        self.current_pv = link;
    }

    /// The video of the song that plays, if any.
    pub fn current_pv(&self) -> (r: Option<&PvLink>)
        ensures
            match r {
                Some(link) => self@.video == Some(link_view(*link)),
                None => self@.video is None,
            },
    {
        match &self.current_pv {
            Some(link) => Some(link),
            None => None,
        }
    }

    /// What a report is made from, where one is due after `status`.
    pub fn countdown(&self, status: &Status) -> (r: Option<Countdown>)
        ensures
            match r {
                Some(c) => countdown_due(self@, *status) == Some((c.elapsed, c.start_offset_ms, c.activity)),
                None => countdown_due(self@, *status) is None,
            },
    {
        let link = match &self.current_pv {
            Some(link) => link,
            None => return None,
        };
        let elapsed = match status.elapsed {
            Some(e) => e,
            None => return None,
        };
        let activity = match activity(status.state) {
            Some(a) => a,
            None => return None,
        };
        Some(Countdown { elapsed, start_offset_ms: link.start_offset_ms, activity })
    }

    /// Takes a report and says whether to show it: only a report that differs
    /// from the last one shown is shown, and it becomes the last one shown.
    pub fn take_report(&mut self, report: String) -> (r: bool)
        ensures
            (final(self)@, r) == after_report(old(self)@, report@),
    {
        if same_text(report.as_str(), self.previous_display.as_str()) {
            return false;
        }
        self.previous_display = report;
        true
    }
}

/// A poll that reports the song of the poll before it has nothing to do and
/// changes nothing.
pub proof fn lemma_same_song_is_quiet(v: PlaybackView, song: Option<u32>)
    ensures
        song_action(after_status(v, song), song) == CurrentSong::Unchanged,
        after_status(after_status(v, song), song) == after_status(v, song),
{
}

/// When MPD starts another song, the loop forgets the video of the song
/// before and asks for the new song, whose video it then looks up.
pub proof fn lemma_new_song_is_looked_up(v: PlaybackView, song: Option<u32>)
    requires
        song != v.song_seen,
    ensures
        after_status(v, song).video is None,
        after_status(v, song).shown == v.shown,
        song matches Some(id) ==> song_action(v, song) == CurrentSong::Fetch(id),
{
}

/// A report that differs from the last one shown is shown, and becomes the
/// last one shown; the rest of the state stays.
pub proof fn lemma_new_report_shown(v: PlaybackView, report: Seq<char>)
    requires
        report != v.shown,
    ensures
        after_report(v, report).1,
        after_report(v, report).0.shown == report,
        after_report(v, report).0.song_seen == v.song_seen,
        after_report(v, report).0.video == v.video,
{
}

/// A report is due exactly when the song that plays has a video, MPD reports
/// the song's elapsed time, and MPD plays or is paused; it is made from that
/// elapsed time, the video's start offset and the activity.
pub proof fn lemma_countdown_due(v: PlaybackView, status: Status)
    ensures
        countdown_due(v, status) is Some <==> v.video is Some && status.elapsed is Some && (status.state
            == Some(PlaybackState::Playing) || status.state == Some(PlaybackState::Paused)),
        countdown_due(v, status) matches Some((e, offset, a)) ==> Some(e) == status.elapsed
            && (v.video matches Some((_, o, _)) && offset == o) && (a == Activity::Playing <==> status.state == Some(
            PlaybackState::Playing,
        )),
{
}

/// The same report made twice in a row is shown at most once.
pub proof fn lemma_report_shown_once(v: PlaybackView, report: Seq<char>)
    ensures
        !after_report(after_report(v, report).0, report).1,
        after_report(after_report(v, report).0, report).0 == after_report(v, report).0,
{
}

} // verus!
