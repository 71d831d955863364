# tiny_player

A light video player built on FFmpeg, egui and rodio, with live subtitles from a
Whisper model. This crate holds the player's logic as a library verified with
Verus; `app/` holds the program around it (window, decoding with FFmpeg,
audio output, the recogniser's tensor arithmetic, networking).

## Layout

- `src/arith.rs` – `i64` products and quotients with Rust's rounding and overflow rules.
- `src/timing.rs` – stream time bases and timestamp conversions.
- `src/clock.rs` – `HH:MM:SS` texts of the play position and the duration.
- `src/media.rs` – stream selection and the decoder's bookkeeping: routing of
  demuxed packets, seek windows, end-of-file detection, queue low-water marks.
- `src/sync.rs` – audio/video synchronisation decisions of the presentation loop.
- `src/subtitle.rs` – prompt and stopping rule of the subtitle decoder, and the
  framing planner of the streaming mel-spectrogram front end.
- `src/protocol.rs` – chat and video-sharing messages exchanged with the server.
- `src/text.rs` – text matching, media file names, font path escaping, the
  rolling subtitle line.
- `src/sorting.rs`, `src/subset_sum.rs`, `src/division.rs` – a quicksort with a
  three-way partition, a Shell sort with Tokuda's gaps, a backtracking subset-sum
  search, and exact division.
