# tar2

A `tar` replacement with a tree view, colors, emoji icons and a TOML/JSON
configuration, written as a verified library (`src/`) and a thin program
around it (`app/`).

## Layout

- `src/` — the library, verified with Verus:
  - `text.rs`, `path.rs`: strings and Unix paths as `std::path` reads them
    (components, file names, joining).
  - `config.rs`: configuration values, defaults, `get`/`set`/`list` of dotted
    keys, where configuration files are looked for on
    Linux, macOS and Windows.
  - `cli.rs`: what the command line asks for (operation, compression,
    patterns, overrides).
  - `filter.rs`, `ignorefile.rs`: include/exclude globs and regular
    expressions, and gitignore-style ignore files.
  - `archive.rs`: entry metadata, permission and size texts, stripping and
    naming of archive paths (with sed-style `s/old/new/`
    renames), update decisions, dates in an entry's UTC offset.
  - `colors.rs`: styles, colors and emoji of each kind of output.
  - `tree.rs`: the tree of an archive's entries and its drawing, and the flat
    listing.
- `app/` — argument parsing (`clap`), configuration files (`serde`, `toml`,
  `serde_json`), archive streams (`tar`, `flate2`, `bzip2`, `xz2`, `zstd`),
  directory walks and terminal output.
- `tests/` — tests of the library.
