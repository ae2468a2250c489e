# rssbox

The logic of a desktop RSS reader, verified with Verus.

- `src/config` — the settings and their defaults.
- `src/db` — the stored records (`data`), the entry tables' names
  (`entry`) and the tables made at start.
- `src/logic` — the window's state (`store`): feeds holding shared entry
  models by handle; the entry actions (`entry`): read, read all, remove,
  remove all, keep as favourite, entries at start, tags; the feed actions
  (`rss`): startup and the order of the feed list, the feed dialog, new,
  save, delete, mark, switch, sync; the settings dialog (`setting`) and the
  confirmation dialog (`ok_cancel_dialog`). Each action returns the database
  writes and messages it asks for (`action`); where a write's outcome
  decides the new state, the action comes as a request and an apply step.
- `src/util` — text, numbers, messages in English, and the calls into `rss`,
  `uuid` and `md5`.
- `app` — a headless driver: SQLite through `rusqlite`, fetching through
  `reqwest`, the sync timer.
