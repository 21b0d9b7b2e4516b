# dotfiledesk_core

The GUI-independent core of DotfileDesk, a desktop app for managing
developer configuration files: it discovers known configuration files,
keeps their metadata in SQLite, snapshots them into an internal git
repository, diffs and restores them, and refuses to take in private keys
or sensitive files without confirmation.

The library in `src/` is written in Verus. Its functions carry
`requires`/`ensures` contracts that Verus proves. Calls into outside crates
(git2, rusqlite, serde_json, similar, walkdir, dirs, uuid, chrono) and the
few standard-library calls Verus has no specification for sit behind small
wrappers marked `#[verifier::external_body]`: their `ensures` are taken on
trust, not proved, and each doc comment names the call it makes. Where a
result depends on the disk, the database or the repository (whether a path
exists, what a walk or a query returns, which files a commit holds), the
contracts say what holds whatever came back, and the decision taken on that
result is a separate function with an exact contract (for instance
`discovery::scan_from_probes`, `Core::suggestions_from_probes`,
`history::files_below`, `history::restore_plan_from`, `tally_snapshots`,
`history::commit_needed`). The store keeps a ghost record of the
statements it hands to SQLite that change the database or list
configurations (`Store::sent`, `Core::sent`); the contracts of its methods
and of the `Core` methods that use them say which statement text and which
parameters each call adds to it.

The core never touches file contents itself. It computes what to read
(`history::disk_files_to_read`), what to copy before a snapshot
(`Core::staging_plan`) and what to write back on restore
(`Core::prepare_restore`); `app/` carries that out with `std::fs`, loads the
catalogs from JSON, and offers one method per user action.

Layout:

- `src/models.rs`, `src/tracking.rs` — data types and the SQLite store
- `src/discovery.rs`, `src/security.rs`, `src/paths.rs` — the catalog scan,
  private-key and sensitivity rules, path handling
- `src/filemap.rs`, `src/diff.rs`, `src/history.rs`, `src/backup.rs` —
  snapshot contents, diffs, the history repository, the restore workflow
- `src/snippets.rs`, `src/json.rs` — content suggestions for tracked files
- `src/summary.rs`, `src/lib.rs` — dashboard numbers and the `Core` entry point
- `tests/` — tests against the library, including end-to-end runs on real files
- `app/` — the front-end side (plain Rust)
