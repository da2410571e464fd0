# eyes_on_me

The logic of a desktop activity tracker, verified with Verus.

- `src/` is the library. `platform` decides what a capture shows: application
  names, privacy filters, delivery to the uploader. `idle` reads idle counters.
  `db` builds search queries and statements, turns activities into rows and
  back, and steps through migrations. `api` reads requests and picks answers.
  `text`, `timestamp` and `model` are what these share.
- `tests/` runs the library on concrete values, and its statements on SQLite.
- `app/` is the part around it: processes, channels, the database, HTTP.

Calls that are believed and not proved carry a doc comment that says what is
claimed of them. They stand in `text`, `idle`, `timestamp` and
`platform::domains`.
