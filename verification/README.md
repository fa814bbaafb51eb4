# micro_template

A small backend service (HTTP on ntex, an embedded redb database behind
write buffers, FlatBuffers on the wire) whose decision logic is a
Verus-verified library.

## Layout

- `src/` — the verified library.
  - `config.rs` — `.env` parsing, the parse-once cache, and the lookup
    order secrets file → environment → `.env`.
  - `buffer.rs` — write buffers: size-triggered, timer-triggered and
    expiry-forced flushes, and the table-name registry lookup.
  - `named_map.rs` — the map from names to values used by both.
  - `errors.rs` — layer errors, their texts, and the HTTP status of each.
  - `logging.rs` — log line and `HH:MM:SS.mmm` timestamp formatting,
    logger start-up.
  - `login.rs` — the login decision and its reply.
  - `maintenance.rs` — daily maintenance ticks and backup paths.
  - `text.rs` — character helpers (trimming, decimal digits).
- `app/` — the program: file, environment and database I/O, the stderr
  logger, FlatBuffers bindings, and the HTTP routes.
- `tests/` — tests of the library.
