# RetroTermPlayer

A terminal video player: FFmpeg decodes a local file, a direct media URL or a
YouTube video (resolved through yt-dlp) into small RGB frames, and a renderer
turns each frame into ANSI text, framed by a retro CRT television cabinet.

## Layout

- `src/` is the verified library (Verus). Every function there is verified, and
  all but the constructors of field-less types carry a contract:
  - `renderer/`: the half-block, shading, 256-color, VHS and 24-bit color
    renderers, the television cabinet, the palette helpers of the video
    renderers, and the proofs that every renderer draws a rectangle of
    `width` cells per line and that the television around it is a rectangle
    of `width + 29` cells per line (`picture.rs`, `geometry.rs`).
  - `source/`: recognising what the user asked to play, and the offline
    browser's filtering and ordering of directory entries.
  - `input.rs`: command-line arguments, menu answers, numbers and paths.
  - `player.rs`: keys, the status line, the playback mode of each renderer
    number and the decisions of each turn of the playback loop.
  - `decoder.rs`: frames, decoder profiles, FFmpeg arguments and the
    bookkeeping of reading a frame.
  - `text.rs`: the string building blocks shared by all of the above.
- `app/` is the program around it: terminal and process I/O, the playback
  loop and its timing, directory walking, and the two renderers whose image
  processing is floating point.
- `tests/` exercises the library on concrete values.
