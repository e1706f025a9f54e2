use pvplay::mpd::protocol::{
    command_request, song_command, sticker_list_command, take_reply_line, ReplyStep,
    RequestError,
};
use pvplay::mpd::song::SongError;
use pvplay::mpd::status::{parse_duration, StatusError, TimeError};
use pvplay::mpd::{PlaybackState, Song, Status};
use std::time::Duration;

#[test]
fn parses_song_details() {
    let lines = vec![
        String::from("file: music/example.mp3\n"),
        String::from("Title: Example Song\n"),
        String::from("Id: 2\n"),
    ];

    let song = Song::parse(&lines)
        .expect("valid song details should parse");

    assert_eq!(song.file, "music/example.mp3");
    assert_eq!(song.title.as_deref(), Some("Example Song"));
}

#[test]
fn parses_status_fields() {
    let lines = vec![
        String::from("volume: 100\n"),
        String::from("audio: 44100:16:2\n"),
        String::from("nextsongid: 2\n"),
    ];

    let status = Status::parse(&lines).expect("valid status should parse");

    assert_eq!(status.sample_rate_hz, Some(44100));
    assert_eq!(status.next_song_id, Some(2));
}

#[test]
fn missing_fields_remain_none() {
    let lines = vec![String::from("state: stop\n")];

    let status = Status::parse(&lines).expect("missing fields are allowed");

    assert_eq!(status.sample_rate_hz, None);
    assert_eq!(status.next_song_id, None);
}

#[test]
fn rejects_invalid_sample_rate() {
    let lines = vec![String::from("audio: nope:16:2\n")];

    assert!(Status::parse(&lines).is_err());
}

#[test]
fn rejects_invalid_next_song_id() {
    let lines = vec![String::from("nextsongid: nope\n")];

    assert!(Status::parse(&lines).is_err());
}

#[test]
fn song_without_title_is_valid() {
    let lines = vec![
        String::from("file: music/untitled.mp3\n"),
    ];

    let song = Song::parse(&lines)
        .expect("a song without a title should parse");

    assert_eq!(song.file, "music/untitled.mp3");
    assert_eq!(song.title, None);
}

#[test]
fn song_without_file_is_rejected() {
    let lines = vec![
        String::from("Title: Example Song\n"),
    ];

    assert!(Song::parse(&lines).is_err());
}

fn lines(texts: &[&str]) -> Vec<String> {
    texts.iter().map(|t| t.to_string()).collect()
}

#[test]
fn song_takes_the_last_file_and_title() {
    let song = Song::parse(&lines(&[
        "file: a.mp3\n",
        "Title: First\n",
        "file: b.mp3\n",
        "Title: Second\n",
    ]))
    .unwrap();
    assert_eq!(song.file, "b.mp3");
    assert_eq!(song.title.as_deref(), Some("Second"));
}

#[test]
fn song_line_without_newline_is_read() {
    let song = Song::parse(&lines(&["file: c.flac"])).unwrap();
    assert_eq!(song.file, "c.flac");
}

#[test]
fn song_error_names_missing_file() {
    assert_eq!(Song::parse(&lines(&[])).unwrap_err(), SongError::MissingFile);
}

#[test]
fn status_reads_every_field() {
    let status = Status::parse(&lines(&[
        "songid: 7\n",
        "elapsed: 12.500\n",
        "duration: 200.250\n",
        "state: play\n",
        "nextsongid: 8\n",
        "audio: 48000:24:2\n",
    ]))
    .unwrap();
    assert_eq!(status.song_id, Some(7));
    assert_eq!(status.elapsed, Some(Duration::from_millis(12_500)));
    assert_eq!(status.duration, Some(Duration::from_millis(200_250)));
    assert_eq!(status.state, Some(PlaybackState::Playing));
    assert_eq!(status.next_song_id, Some(8));
    assert_eq!(status.sample_rate_hz, Some(48000));
}

#[test]
fn status_later_line_overrides_earlier() {
    let status = Status::parse(&lines(&["state: play\n", "state: pause\n", "songid: 1\n", "songid: 2\n"]))
        .unwrap();
    assert_eq!(status.state, Some(PlaybackState::Paused));
    assert_eq!(status.song_id, Some(2));
}

#[test]
fn status_first_bad_line_decides_error() {
    let err = Status::parse(&lines(&["songid: x\n", "nextsongid: y\n"])).unwrap_err();
    assert!(matches!(err, StatusError::InvalidSongId));
}

#[test]
fn status_unknown_state_keeps_value() {
    let err = Status::parse(&lines(&["state: rewind \n"])).unwrap_err();
    match err {
        StatusError::UnknownState(v) => assert_eq!(v, "rewind"),
        other => panic!("unexpected {:?}", other),
    }
}

#[test]
fn status_stopped_state() {
    let status = Status::parse(&lines(&["state: stop\n"])).unwrap();
    assert_eq!(status.state, Some(PlaybackState::Stopped));
}

#[test]
fn status_audio_without_separator() {
    let err = Status::parse(&lines(&["audio: 44100\n"])).unwrap_err();
    assert!(matches!(err, StatusError::MissingAudioSeparator));
}

#[test]
fn status_invalid_time_values() {
    let err = Status::parse(&lines(&["elapsed: soon\n"])).unwrap_err();
    assert!(matches!(err, StatusError::InvalidTime(TimeError::NotANumber)));
    let err = Status::parse(&lines(&["duration: -3\n"])).unwrap_err();
    assert!(matches!(err, StatusError::InvalidTime(TimeError::OutOfRange)));
}

#[test]
fn status_song_id_with_plus_and_overflow() {
    let status = Status::parse(&lines(&["songid: +12\n"])).unwrap();
    assert_eq!(status.song_id, Some(12));
    let err = Status::parse(&lines(&["songid: 4294967296\n"])).unwrap_err();
    assert!(matches!(err, StatusError::InvalidSongId));
    let status = Status::parse(&lines(&["songid: 4294967295\n"])).unwrap();
    assert_eq!(status.song_id, Some(u32::MAX));
}

#[test]
fn status_default_is_empty() {
    let status = Status::default();
    assert_eq!(status.song_id, None);
    assert_eq!(status.elapsed, None);
    assert_eq!(status.state, None);
}

#[test]
fn duration_is_trimmed_and_read_as_seconds() {
    assert_eq!(parse_duration(" 3\n"), Ok(Duration::from_secs(3)));
    assert_eq!(parse_duration("0.25"), Ok(Duration::from_millis(250)));
    assert_eq!(parse_duration("1e1"), Ok(Duration::from_secs(10)));
    assert_eq!(parse_duration("abc"), Err(TimeError::NotANumber));
    assert_eq!(parse_duration("-0.5"), Err(TimeError::OutOfRange));
    assert_eq!(parse_duration(""), Err(TimeError::NotANumber));
}

#[test]
fn command_request_adds_line_feed() {
    assert_eq!(command_request("status"), "status\n");
}

#[test]
fn song_command_writes_id() {
    assert_eq!(song_command(0), "playlistid 0");
    assert_eq!(song_command(4294967295), "playlistid 4294967295");
}

#[test]
fn sticker_command_quotes_uri() {
    assert_eq!(
        sticker_list_command("Artist/Album/a \"b\" c\\d.mp3"),
        Ok(String::from("sticker list song \"Artist/Album/a \\\"b\\\" c\\\\d.mp3\""))
    );
    assert_eq!(sticker_list_command(""), Ok(String::from("sticker list song \"\"")));
}

#[test]
fn sticker_command_refuses_line_breaks() {
    assert_eq!(sticker_list_command("a\nb"), Err(RequestError::UriHasNewline));
    assert_eq!(sticker_list_command("a\rb"), Err(RequestError::UriHasNewline));
}

#[test]
fn reply_lines_are_collected_until_ok() {
    let mut response = Vec::new();
    assert!(matches!(take_reply_line(&mut response, "file: a\n".to_string()), ReplyStep::More));
    assert!(matches!(take_reply_line(&mut response, "Id: 3\n".to_string()), ReplyStep::More));
    assert!(matches!(take_reply_line(&mut response, "OK\n".to_string()), ReplyStep::Complete));
    assert_eq!(response, vec!["file: a\n".to_string(), "Id: 3\n".to_string()]);
}

#[test]
fn reply_ack_and_closed() {
    let mut response = Vec::new();
    match take_reply_line(&mut response, "ACK [50@0] {playlistid} No such song \n".to_string()) {
        ReplyStep::Rejected(msg) => assert_eq!(msg, "ACK [50@0] {playlistid} No such song"),
        _ => panic!("expected a rejection"),
    }
    assert!(matches!(take_reply_line(&mut response, String::new()), ReplyStep::Closed));
    assert!(response.is_empty());
    assert!(matches!(take_reply_line(&mut response, "OK".to_string()), ReplyStep::More));
    assert_eq!(response, vec!["OK".to_string()]);
}
