# episode_transcribe

Batch transcription of episode MP4s into subtitles (`.srt`, `.txt`, and
speaker-styled `.ass`), with speaker profiles built from diarized audio.

- `src/` is the verified library: subtitle and transcript rendering, text
  normalisation, key-term parsing, video selection and ordering, speaker
  profile bookkeeping (ids, embedding caps, labels, colours, style names),
  the review page, help pages, and the decisions the command line takes.
  `src/laws.rs` states the properties that span several functions.
- `tests/` exercises the library on concrete values.
- `app/` is the `transcribe` binary: argument parsing, the project
  registry (SQLite), ffmpeg, Whisper and sherpa-onnx, audio playback and
  the file system. It hands the library plain values and writes what the
  library renders.
