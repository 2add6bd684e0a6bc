# sixbiter

Sixbiter corrects the lens metadata of DNG files: a set of lens rules says
which metadata fields a file must have (`match`) and which values to write in
their place (`modify`). The library here holds that logic, verified with Verus.

## Layout

- `src/lens/` — the rules (`mapping`), how they match a file's metadata
  (`metadata`), and the ordered store that keeps them (`store`), with the laws
  of adding, removing and renaming rules.
- `src/views/files/` — the table of scanned files: which rows are shown,
  selected, pending, how they sort; and the files view that drives a scan and
  an apply.
- `src/views/settings/` — the settings sections, the list of rules and the
  rule editor.
- `src/preferences.rs`, `src/appearance.rs`, `src/bundle.rs` — preferences,
  light and dark appearance, and where resources are found.
- `src/ordmap.rs`, `src/paths.rs` — the calls into `indexmap` and
  `std::path`, each with the contract the library relies on.
- `src/keyed.rs`, `src/text.rs`, `src/json.rs` — ordered key/value sequences,
  text helpers and JSON values as the library models them.
- `app/` — a command-line front end: reading and writing files with ExifTool,
  walking folders, and saving the rules and preferences as JSON.
- `tests/` — tests of the library.
