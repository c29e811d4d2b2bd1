# tharsis

The verified core of a segmented download manager.

`src/` is a Verus library:

- `job` — a download as a state machine: each step takes the outcome of the
  last action and returns the next action (create the directory, probe the
  server, store records, fetch the chunks, stitch or abandon the parts).
- `plan` — byte ranges (up to four per file, none empty, when the server
  takes ranges), chunk records, `Range` headers and part-file paths.
- `headers` — reading `Content-Length` and `Accept-Ranges` from raw bytes.
- `urls` — the saved file's name, from the final URL's path.
- `progress` — per-chunk byte counts and throttled reports.
- `registry` — the handles of running downloads by id.
- `status`, `config`, `text`, `ids`, `models` — error texts, fixed settings,
  decimal text, paths by the Unix or Windows rules, fresh ids, and the
  stored records.

`app/` performs the actions: HTTP with `reqwest`, files and tasks with
`tokio`, the database with `sqlx`.
