# chords

The logic of a guitar chord sheet viewer, verified with Verus: reading chord sheets
with `[ch]…[/ch]` markers into lines and chords, transposing them, the built-in chord
voicing table, reading the chord site's pages and search results, and the decisions of
the user interface (columns, library grouping and filtering, search paging, chord
diagrams, labels).

- `src/` — the verified library.
  - `text` — characters, trimming, UTF-8 lengths, decimal numerals.
  - `music` — the sheet parser, transposition, and the chord table.
  - `data` — tab and search models, JSON values, the site's pages and addresses.
  - `ui` — the state and decisions behind each part of the window.
- `tests/` — tests of the library.
- `app/` — the GTK application around the library: widgets, HTTP, SQLite, settings.
- `extras/gen_chords.py` — generates the chord table in `src/music/chord_data.rs`.
