use pvplay::pv_link::paths::{pv_folder, resolve_pv_path, MUSIC_ROOT};
use pvplay::pv_link::PvLink;

fn lines(texts: &[&str]) -> Vec<String> {
    texts.iter().map(|t| t.to_string()).collect()
}

#[test]
fn resolves_video_beside_artist_folder() {
    assert_eq!(
        resolve_pv_path("Artist/Album/01 Song.m4a", "clip.mp4"),
        Some(format!("{}/Artist/Artist [pv]/clip.mp4", MUSIC_ROOT))
    );
}

#[test]
fn absolute_video_path_is_kept() {
    assert_eq!(
        resolve_pv_path("Artist/Album/01 Song.m4a", "/videos/clip.mp4"),
        Some(String::from("/videos/clip.mp4"))
    );
}

#[test]
fn song_at_root_of_filesystem_has_no_artist() {
    assert_eq!(resolve_pv_path("/song.mp3", "clip.mp4"), None);
}

#[test]
fn folder_name_appends_pv() {
    assert_eq!(pv_folder("Perfume"), "Perfume [pv]");
}

#[test]
fn links_video_from_stickers() {
    let stickers = lines(&["sticker: pv=clip.mp4\n", "sticker: pv_in_ms=-1500\n", "OK-ish\n"]);
    let link = PvLink::from_stickers("A/B/c.mp3", &stickers).expect("a link");
    assert_eq!(link.path, format!("{}/A/A [pv]/clip.mp4", MUSIC_ROOT));
    assert_eq!(link.start_offset_ms, -1500);
    assert_eq!(link.video_cutoff_ms, None);
}

#[test]
fn last_stickers_win() {
    let stickers = lines(&[
        "sticker: pv=old.mp4\n",
        "sticker: pv_in_ms=5\n",
        "sticker: pv=new.mp4\n",
        "sticker: pv_in_ms=+20\n",
    ]);
    let link = PvLink::from_stickers("A/B/c.mp3", &stickers).unwrap();
    assert_eq!(link.path, format!("{}/A/A [pv]/new.mp4", MUSIC_ROOT));
    assert_eq!(link.start_offset_ms, 20);
}

#[test]
fn unreadable_last_offset_drops_the_link() {
    let stickers = lines(&["sticker: pv_in_ms=5\n", "sticker: pv=v.mp4\n", "sticker: pv_in_ms=soon\n"]);
    assert!(PvLink::from_stickers("A/B/c.mp3", &stickers).is_none());
}

#[test]
fn blank_or_missing_video_gives_no_link() {
    assert!(PvLink::from_stickers("A/B/c.mp3", &lines(&["sticker: pv= \t\n", "sticker: pv_in_ms=0\n"])).is_none());
    assert!(PvLink::from_stickers("A/B/c.mp3", &lines(&["sticker: pv_in_ms=0\n"])).is_none());
    assert!(PvLink::from_stickers("A/B/c.mp3", &lines(&["sticker: pv=v.mp4\n"])).is_none());
}

#[test]
fn malformed_sticker_lines_are_passed_over() {
    let stickers = lines(&[
        "pv=x.mp4\n",
        "sticker: pv\n",
        "sticker: pv=v=2.mp4\n\n",
        "sticker: pv_in_ms=-9223372036854775808\n",
    ]);
    let link = PvLink::from_stickers("A/B/c.mp3", &stickers).unwrap();
    assert_eq!(link.path, format!("{}/A/A [pv]/v=2.mp4", MUSIC_ROOT));
    assert_eq!(link.start_offset_ms, i64::MIN);
}

#[test]
fn other_lines_leave_link_unchanged() {
    let base = lines(&["sticker: pv=v.mp4\n", "sticker: pv_in_ms=7\n"]);
    let with_noise = lines(&[
        "sticker: rating=5\n",
        "sticker: pv=v.mp4\n",
        "volume: 3\n",
        "sticker: pv_in_ms=7\n",
        "sticker: pvx=other.mp4\n",
    ]);
    let a = PvLink::from_stickers("A/B/c.mp3", &base).unwrap();
    let b = PvLink::from_stickers("A/B/c.mp3", &with_noise).unwrap();
    assert_eq!(a.path, b.path);
    assert_eq!(a.start_offset_ms, b.start_offset_ms);
    assert_eq!(a.video_cutoff_ms, b.video_cutoff_ms);
}
