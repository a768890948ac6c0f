# videoclub-core

The logic of Videoclub, a desktop library for local movie files, as a
verified Rust library (Verus).

- `src/` — the library: file-name parsing (`filename`), the catalogue and its
  orders (`movie`, `catalog`, `sorting`), stored metadata and hand edits
  (`metadata_store`, `editing`), enrichment and subtitle downloads as state
  machines (`enricher`, `subtitles`), OMDb and TMDb requests (`omdb`,
  `tmdb`), subtitle files beside a video and SubRip parsing
  (`local_subtitles`, `srt`), playback decisions (`player`,
  `playback_view`), scanning, hashing and the poster cache (`scanner`,
  `hash`, `cache`), and text helpers (`text`, `strings`, `paths`).
- `app/` — the GTK 4 / libadwaita program around it: windows, GStreamer
  playback, D-Bus, HTTP, GSettings and files.
- `tests/` — tests of the library.
