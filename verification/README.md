# cnr

Crown & Reach: a durable coordination runtime for multiplayer software work,
on top of the Axial event spine.

- `src/` is the verified library. `records` holds what CNR writes to and reads
  from the spine (actors, stream kinds, claims, payloads); `planner` decides
  Crown's next actions from the log; `manager` turns actions into the events a
  cycle records, with the laws that tie planning and recording together;
  `executor` reads the `cnr-claims` block of a worker transcript and builds run
  lifecycle events; `projections` counts what the log records; `discord`
  parses `!cnr` commands and shapes replies; `text` holds the character-level
  helpers (Unicode whitespace, trimming, tokens, decimals).
- `app/` is the command line and the Discord bot: the Axial store, files, git,
  JSON and the gateway, around the library's decisions.
- `tests/` exercises the library on concrete values.
