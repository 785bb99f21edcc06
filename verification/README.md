# fornax storage

The storage layer of a desktop chat client, verified with Verus: conversations
with branching message histories, projects, presets and usage records in
SQLite.

- `src/` — the verified library. `db`, `json` and `text` hold the only
  trusted items (calls into `rusqlite`, `serde_json` and `String::push`);
  `message`, `history`, `search` and `export` are the pure logic with exact
  contracts and the laws about it; `settings` decodes the stored settings
  columns that are not floating point; `conversation_storage`,
  `project_storage`, `preset_storage` and `usage_storage` run the SQL and
  hand the replies to that logic.
- Each storage type holds its connection and that connection's `Log`: a
  ghost record (`sent()`) of every exchange made on it -- the SQL, the
  bound parameters and the reply. The log is made only together with its
  connection, by the open of exactly the requested file (or of a fresh
  in-memory database); a failed open, or a failed schema step while
  opening, comes back as an `OpenError` that carries what was exchanged up
  to the failure. Each trusted call into `rusqlite` takes the log and its
  connection and states the exchange it adds, so a statement cannot reach the connection
  unrecorded. The storage contracts say which statements each operation
  sends, in which order and inside which transaction, and how its result
  follows from the replies. Statements a caller runs itself on
  `connection()` are outside the log.
- `app/` — locating the database file, moving pre-rename data, and the
  settings, preset and usage operations that carry floating-point values.
- `tests/` — tests against real in-memory SQLite databases.
