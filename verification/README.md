# Fast Photo Viewer

A viewer for folders of photos and videos. Its logic is a library that is
verified with Verus; windows, codecs, devices and files are handled by a thin
program around it.

## Layout

- `src/` is the library.
  - `media`, `navigation`: kinds of files, and which file comes next.
  - `viewer`, `text`: what keys and the seek bar do, what is on display and what
    is written on it.
  - `jpeg`, `decode`, `picture`, `pixels`: making pictures of files, and turning
    them.
  - `shared`, `player`: the state of a video player and which frame is shown
    when.
  - `demuxer`, `worker`, `frames`: reading and decoding ahead, and what a seek
    makes stale.
  - `audio`, `texture`, `thumbnails`: sound on its way out, textures, and the
    strip of small pictures above the seek bar.
  - `playback`: what holds of all the parts of a player together.
  - `scenario`: trials of a player and when they are passed.
- `tests/` runs the library.
- `app/` is the program: the window, ffmpeg, SVG drawings, the speaker and the
  graphics card.

## What is trusted

Contracts that are believed and not proved stand on the functions that call
`image::load_from_memory`, `ringbuf`, `rand`, and the parts of the standard
library for paths and for lower case. Each says above it what it claims.

Volume, zoom, places on the seek bar and the conversion of time stamps are in
floating point and stay in the program. The library carries such a value as the
bits of an `f32`.
