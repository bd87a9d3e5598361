# mentor

Spaced-repetition knowledge tracking for Socratic mentor sessions, written in
Verus: the logic is a library whose functions carry `requires`/`ensures`
contracts proved by the verifier, and a thin program around it does the I/O.

## Layout

- `src/` — the verified library.
  - `sm2.rs` — the SM-2 review rule (ease factor kept in hundredths) and its laws.
  - `topic.rs` — topics, their categories, question depth and schedule.
  - `trigram.rs`, `text.rs` — trigram similarity of names; text helpers.
  - `session.rs` — sessions and their UUID identifiers.
  - `storage.rs` — the column values of stored topics and sessions, and the
    round trips between rows and values.
  - `tools.rs`, `params.rs`, `knowledge_tools.rs` — what each MCP tool decides
    from what the storage returned, and how loosely typed parameters are read.
  - `dashboard.rs`, `panes.rs`, `header.rs`, `display.rs`, `logger.rs`,
    `topics_view.rs` — the dashboard's state machine (`update`), the texts it
    shows, its log, and the counts behind its panels.
  - `migration.rs` — what the upgrades of older databases compute.
- `tests/` — tests of the library on concrete values.
- `app/` — the program: the MCP servers (rmcp over stdio), the terminal
  dashboard (ratatui), the database (libsql) and its upgrades.

Times are whole seconds since the Unix epoch. Calls into `uuid`, `chrono`,
`serde_json` and `std` that the logic makes stand behind small trusted
functions whose contracts say what those crates promise.
