# qtools

The core of the qtools desktop assistant, written in Verus: a URI-routed
memory graph kept in SQLite (`domain://path` routes, versioned contents,
aliases, glossary keywords, full-text search and the `system://` views),
conversation storage for the chat agent, the Canvas LMS helpers and the
data-directory settings.

Layout:

- `src/` — the verified library. `memory/` holds the graph, its URI rules,
  reads, writes, aliases, glossary and search; `commands/` the operations
  behind the application's commands (conversations, chat turns, Canvas,
  data directory); `text.rs` the string lemmas and helpers they share.
  SQLite is reached through a handful of trusted statements in
  `memory/db.rs`; a `Db` keeps a ghost record of every statement sent and
  what it answered, and the contracts state which statements each
  operation sends, with which parameters, and what it makes of the answers.
- `tests/` — tests of the library against an in-memory SQLite database.
- `app/` — the unverified shell: settings files, the data directory on
  disk, the database thread, the HTTP client for Canvas and the language
  model provider with its memory tools.
