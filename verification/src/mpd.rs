//! MPD's side: its protocol's framing, and the song and status replies.
pub mod protocol;
pub mod song;
pub mod status;

pub use song::Song;
pub use status::{PlaybackState, Status};
