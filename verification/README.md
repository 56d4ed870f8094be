# remux_library

The decision core of a media server, in Verus: what a catalog import, a library refresh or a request
does with the rows it is handed is stated as contracts and proved.

- `src/` is the library. Long-running work (`import`, `refresh_library`, `refresh_all_meta`,
  `cleanup`, `collection_images`) is written as machines: each takes an event that the outside reports
  and answers with the next thing to do, and its contract says which one, over a mathematical model of
  its state. What holds of whole runs stands in the `law_` functions, in `import_laws`,
  `import_run_laws`, `nextup_laws`, `prune_laws` and at the end of the other modules.
- `tests/` runs the library, linked with the outside crates that it calls.
- `app/` is the server around it: handlers, tasks and SQL.

Identifiers are UUIDs as `u128` values, points in time are seconds and nanoseconds since 1970 in UTC.
The library calls `uuid`, `chrono` and `isolang` through the functions marked
`#[verifier::external_body]` in `ids`, `time`, `calendar` and `language`, and a few functions of std
through those in `text`; each says in its comment what is relied on.
