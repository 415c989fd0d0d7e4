# multitool-core

The core of a desktop media multitool (video/audio/PDF/image tools), with
its logic verified by Verus.

- `src/` — the verified library:
  - `text`, `paths` — character-level models of the string and `Path`
    operations the tools use, with executable versions proved against them.
  - `ffmpeg`, `ffmpeg_session` — parsing of ffmpeg's progress lines and
    `-i` banners, the argument prefixes, the stderr tail kept for failure
    messages and the progress throttle.
  - `collision` — the ` (n)` duplicate-name policy as a search driven by
    the caller's answers.
  - `raster_format`, `image_io` — the encodable raster formats and the
    calls into the `image` crate (trusted wrappers).
  - `audio_codecs` — LAME's sample-rate and channel gates, the bitrate
    ladder, WAV layouts and decoder routing.
  - `tools::*` — per tool: output naming, ffmpeg recipes, option types,
    crop geometry and TIFF frame counting, page naming, and the shared item
    loop and batch tally (`tools::steps`).
  - `shell` — which picked files may be previewed and which temp files may
    be deleted as preview proxies.
- `app/` — ordinary Rust around the library: running ffmpeg, the file
  system, pdfium and printpdf, audio decoding/encoding (floating point),
  and the per-tool job drivers.
- `tests/` — tests of the library from outside.
