# asset_version_control

Per-asset version control on top of a single Git repository: every tracked file gets its
own version sequence (`<asset_id>-v<major>.<minor>.<patch>` tags), its own Markdown log in
`.logs/`, and a row in a SQLite cache (`.assets.sqlite`).

## Layout

- `src/` — the verified library (Verus). It holds the parsing, formatting and decisions
  that the commands rely on:
  - `text.rs`: the string model (lines, trimming, splitting, decimal numerals, unsigned
    parsing, UTF-8 lengths) the rest is specified in;
  - `string_formating/`: tags, versions, log entries, and the laws that tie them together
    (a stamped tag splits back, the next tag keeps the asset and raises the patch by one);
  - `git/`: what Git prints, read into values, the staging state machine (add, rm of a
    renamed file's old path, commit with rollback, tag with retries) and the rename
    detection state machine (stage all, diff, always unstage again);
  - `stamp/`: the stamping state machine (stage, database, log, link, with retries);
  - `log_manager/`: which versions a log lacks, and where a new entry goes; for a log
    made of the entries the library formats, in version order (their fields free of
    `"## "`), inserting there keeps it in version order;
  - `database/`, `initialize/`, `file_system/`, `paths.rs`: the SQL the project runs,
    the batching of inserts, the counter check, asset-id names, and the log path of an
    asset (`.logs/<asset_id>.md`, stored relative to the root).
- `tests/` — tests on concrete values, run against the compiled library.
- `app/` — the commands of the desktop application: they run `git`, open the database,
  read and write files, and call the library for everything else.

Verify with Verus on `src/lib.rs`.
