# pvplay

Plays the promotional video (PV) of the song that MPD plays, in mpv, with the
video's audio turned off so that MPD stays the only source of sound. The video
of a song is named in the song's MPD stickers (`pv` for the file, `pv_in_ms`
for where the song starts in the video). When MPD starts another song, pvplay
looks up that song's video and opens it in mpv, paused and silent; keeping the
video in step with the song is still under development, so for now pvplay
reports where in the video the song is.

- `src/` is the verified library: MPD's reply formats and command framing
  (`mpd`), the sticker link and the video's path (`pv_link`), mpv's JSON IPC
  framing, the requests that open a video and the reply matching (`mpv`), the
  decisions of the polling loop (`playback`), and the text and number helpers
  they rest on (`text`, `number`).
- `app/` is the program: the MPD connection, the mpv process, and the loop
  that polls, sleeps and prints.
- `tests/` runs the library on concrete replies.
