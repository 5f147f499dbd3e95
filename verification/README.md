# rnit

A small command-line toolkit for inspecting and changing files and for listing
processes. The decisions it makes are written in Verus and proved against
their contracts; the program around them reads arguments, talks to the
operating system and prints, and computes the one floating-point figure, the
CPU share of each process, from the tick counts the library correlates.

## Layout

- `src/` — the verified library (crate `rnit`):
  - `text.rs`, `scan.rs` — characters, decimal numbers, whitespace fields;
  - `size_format.rs` — human-readable sizes, computed exactly with integers;
  - `query.rs` — stable sorting by a field, descending order, limits;
  - `table.rs` — laying out rows as an aligned text table;
  - `fs/` — entry names, paths, and the steps of the `list`, `find`, `info`,
    `create`, `delete` and `rename` commands, each step a function from what
    the previous one decided and what the file system answered;
  - `proc/` — reading `/proc/<pid>/stat` and `/proc/stat`, processes as rows.
- `tests/` — tests of the library.
- `app/` — the executable: `clap` options, file-system and `/proc` access,
  JSON output with `serde_json`, error display with `thiserror`.

Paths are handled as UTF-8 text; path components are interpreted by std's
`Path`, and glob patterns by `globset`.
