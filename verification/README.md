# edbookmark

A keyboard-driven terminal bookmark manager, written as a Verus-verified library
with a thin terminal program around it.

- `src/` — the verified library: the bookmark store, multi-word fuzzy search,
  line editing with a byte-offset cursor, the key map, the interactive session
  (what every key action does to the screen state and the store, and which
  outside work it asks for), Netscape HTML / Chromium / spreadsheet import with
  URL de-duplication, HTML export, the snapshot history index, theme colors,
  configuration defaults and the browser launcher's decisions.
- `app/` — the program: terminal drawing (ratatui, crossterm), file and process
  I/O, JSON/TOML (de)serialization, spreadsheet reading and writing.
- `tests/` — tests of the library on concrete values.
