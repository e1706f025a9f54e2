//! Companion for MPD that plays the promotional video of the song MPD plays.
//!
//! The library holds the verified logic: the line formats of MPD's protocol,
//! the stickers that link a song to its video, the JSON framing of mpv's IPC
//! and the decisions of the playback loop. Sockets, processes and the clock
//! stay with the program around it.
pub mod mpd;
pub mod mpv;
pub mod number;
pub mod playback;
pub mod pv_link;
pub mod text;


