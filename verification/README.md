# codex_sidebar

Token-usage capture for ephemeral Codex side conversations.

A bridge stands between a desktop application and the Codex app-server. It
passes their messages on unchanged, keeps track of ephemeral threads and their
turns, and appends one record per billable sampling event, and one per completed
turn, to a spool file. An import reads the spool from where it last ended and
puts each usage event into a request log once. Neither prompts nor answers are
kept.

- `src/` is the library, verified with Verus: the bridge's state
  (`bridge`, `record`), the spool's framing (`spool`), the import (`event`,
  `import`, `sync`, `cost`), the choice of program and paths (`launch`), and
  what they stand on (`json`, `wire`, `table`, `text`, `clock`). The modules
  named `*_laws` state what holds across functions.
- `app/` launches the program, moves bytes, and runs the import's actions
  against SQLite.
- `tests/` runs the library on concrete values.
