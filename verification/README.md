# filescandb

Scans a directory tree into folder and file records and stores them in an
SQLite database through `rusqlite`.

- `src/models.rs`: the records, `total_items`, the row-to-record functions,
  what it means for a tree to have been written (ids given, parents linked,
  contents kept), and laws on the record count.
- `src/sqlite.rs`: the trusted items for the `rusqlite` calls. Each call that
  reaches the database adds to the ghost history of the `Db` it goes through
  what was handed to SQLite, whether it succeeded, and what came back.
- `src/context.rs`: `RustFileScanDbContext`, which prepares each statement
  once and keeps it; its contracts state each operation's effect on that
  history, and that it returns `Ok` exactly where every call succeeded.
- `src/lib.rs`: writing a whole tree in one transaction, and the laws that tie
  what writing records to the records `total_items` counts.
- `src/scan.rs`: what a scan computes from plain values: file records with
  RFC 3339 times (through `chrono`), how a directory entry joins its folder,
  and the hash word of `shasum` output.
- `src/records.rs`: the rows of the diesel-based store.
- `app/`: the program: directory walking, running `shasum`, opening the
  database file, printing, and the diesel-based store.
