# disk-cleaner

A disk space analyzer and cleaner with a web interface. It walks a directory
tree, sorts what it finds into categories (caches, build outputs, logs,
archives, system files, ...), says how much space could safely be freed, and
moves what the user picks to the system Trash.

## Layout

- `src/` — the library, verified with Verus:
  - `scanner/` — the directory walk's decisions (which directories to enter,
    which entries to count and list, hard links counted once), the live-scan
    groups, and directory size roll-ups;
  - `analyzer/` — the categories, the classification rules, grouping,
    savings and advice;
  - `web/` — the records of the web API and how results, progress and
    deletions are computed from a scan;
  - `ui/` — the state machine of the terminal interface: keys, mouse,
    listings, marking and deleting;
  - `text.rs`, `paths.rs`, `sorting.rs`, `rollup.rs`, `clock.rs` — shared
    helpers (string building, path pieces through `std::path`, stable
    ordering, totals by key, the clock).
- `app/` — the program: argument parsing, the HTTP server, the filesystem
  walk that feeds the library, moving files to the Trash, storage figures
  and system metrics.
- `tests/` — tests of the library.
