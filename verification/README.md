# airs_tts

Text-to-speech front end with machine-checked contracts.

- `src/cli.rs` — the command line (`--help`, `--version`, `list_voices`, `pipe`): typed values,
  sources, targets and whole command lines, each against a specification, with laws on accepted
  `pipe` commands.
- `src/kokoro/voices.rs` — voice files (`[N, 256]` little-endian `f32` arrays kept as bit patterns),
  the voice store, directory listings and voice languages.
- `src/kokoro/engine.rs` — Kokoro engine state: configuration, loaded voices, synthesis requests.
- `src/lib.rs` — `TtsEngine`, `TtsError`, `VoiceInfo`, `tts_list_voices`, `version`.
- `src/sort.rs`, `src/text.rs`, `src/paths.rs` — stable sorting in `str` order, string helpers,
  model locations.
- `app/main.rs` — the `airs-tts` program: arguments, environment, files, printing.
