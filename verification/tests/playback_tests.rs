use pvplay::mpd::{PlaybackState, Song, Status};
use pvplay::playback::{activity, now_playing_label, Activity, CurrentSong, Playback};
use std::time::Duration;

fn lines(texts: &[&str]) -> Vec<String> {
    texts.iter().map(|t| t.to_string()).collect()
}

fn status_of_songs(song_id: Option<u32>, next_song_id: Option<u32>) -> Status {
    let mut status = Status::default();
    status.song_id = song_id;
    status.next_song_id = next_song_id;
    status
}

#[test]
fn current_song_is_fetched_once_per_change() {
    let mut p = Playback::new();
    assert_eq!(p.observe_status(&status_of_songs(None, Some(9))), CurrentSong::Unchanged);
    assert_eq!(p.observe_status(&status_of_songs(Some(4), Some(5))), CurrentSong::Fetch(4));
    assert_eq!(p.observe_status(&status_of_songs(Some(4), Some(6))), CurrentSong::Unchanged);
    assert_eq!(p.observe_status(&status_of_songs(None, None)), CurrentSong::NoneReported);
    assert_eq!(p.observe_status(&status_of_songs(None, Some(1))), CurrentSong::Unchanged);
}

#[test]
fn change_of_song_forgets_video() {
    let mut p = Playback::new();
    p.observe_status(&status_of_songs(Some(1), Some(2)));
    p.choose_pv("A/B/c.mp3", &lines(&["sticker: pv=v.mp4\n", "sticker: pv_in_ms=250\n"]));
    assert_eq!(p.current_pv().map(|l| l.start_offset_ms), Some(250));
    assert_eq!(p.current_pv().map(|l| l.video_cutoff_ms), Some(None));
    p.observe_status(&status_of_songs(Some(1), Some(3)));
    assert!(p.current_pv().is_some());
    p.observe_status(&status_of_songs(Some(2), Some(3)));
    assert!(p.current_pv().is_none());
}

#[test]
fn countdown_needs_video_elapsed_time_and_activity() {
    let mut p = Playback::new();
    let mut status = Status::default();
    status.elapsed = Some(Duration::from_secs(20));
    status.state = Some(PlaybackState::Paused);
    assert!(p.countdown(&status).is_none());
    p.choose_pv("A/B/c.mp3", &lines(&["sticker: pv=v.mp4\n", "sticker: pv_in_ms=-40\n"]));
    let c = p.countdown(&status).expect("a countdown");
    assert_eq!(c.elapsed, Duration::from_secs(20));
    assert_eq!(c.start_offset_ms, -40);
    assert_eq!(c.activity, Activity::Paused);
    status.state = Some(PlaybackState::Stopped);
    assert!(p.countdown(&status).is_none());
    status.state = Some(PlaybackState::Playing);
    status.elapsed = None;
    assert!(p.countdown(&status).is_none());
}

#[test]
fn reports_are_shown_only_when_they_change() {
    let mut p = Playback::new();
    assert!(p.take_report("Playing - PV begins in 3 playback seconds".to_string()));
    assert!(!p.take_report("Playing - PV begins in 3 playback seconds".to_string()));
    assert!(p.take_report("Playing - PV begins in 2 playback seconds".to_string()));
    assert!(!p.take_report("Playing - PV begins in 2 playback seconds".to_string()));
}

#[test]
fn empty_report_is_not_shown_first() {
    let mut p = Playback::new();
    assert!(!p.take_report(String::new()));
}

#[test]
fn activity_labels() {
    assert_eq!(activity(Some(PlaybackState::Playing)), Some(Activity::Playing));
    assert_eq!(activity(Some(PlaybackState::Paused)), Some(Activity::Paused));
    assert_eq!(activity(Some(PlaybackState::Stopped)), None);
    assert_eq!(activity(None), None);
    assert_eq!(Activity::Playing.label(), "Playing");
    assert_eq!(Activity::Paused.label(), "Paused");
}

#[test]
fn now_playing_prefers_title() {
    let titled = Song::parse(&lines(&["file: f.mp3\n", "Title: T\n"])).unwrap();
    let untitled = Song::parse(&lines(&["file: f.mp3\n"])).unwrap();
    assert_eq!(now_playing_label(&titled), "T");
    assert_eq!(now_playing_label(&untitled), "f.mp3");
}
