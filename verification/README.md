# Rivett

A keyboard-driven image viewer for vetting large image collections: step
through a folder, rate, hide, rotate and delete images, and filter by rating
across the folder or the whole library.

## Layout

- `src/` — the library, verified with Verus. Each public function states in
  its `ensures` what it returns or changes; the `lemma_*` proof functions
  state the properties that span calls.
  - `formats` — which files are images, by extension.
  - `image_loader` — directory listings (filtering, stable sorting, the
    cursor, refresh), decoding raster and SVG images, the decoded-image LRU
    cache, pixel conversion and the EXIF orientation fix-ups.
  - `session` — rotations, ratings filters and the per-run session state.
  - `commands` — the commands that keys and context-menu items stand for.
  - `metadata` — JSON pretty-printing of embedded metadata, raw-file
    recognition, and finding the EXIF orientation in a file's leading bytes.
  - `viewer` — rotating RGBA pixel data before display.
  - `db` — the SQLite store of ratings, bookmarks, notes and settings.
  - `settings`, `ui_text`, `paths`, `order`, `pathmap`, `text` — settings
    locations, the texts the window shows, and supporting pieces.
- `tests/` — tests of the library.
- `app/` — the program around the library: the window (egui/eframe), file
  and clipboard access, camera raw decoding, and background prefetching.
