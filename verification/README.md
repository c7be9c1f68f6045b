# ableton_palette

Keyboard-first access to Ableton Live's devices, plug-ins, presets, racks,
samples, commands and workflows: a local service that keeps the catalog and
the user's personalization, a test client, and the command bar's behaviour.

`src/` is the library, written in Verus and verified:

- `protocol` — the messages exchanged with Live's integrations and clients.
- `store`, `store_laws` — the catalog and personalization tables with the
  semantics of the SQL that kept them, and what reads give back of writes.
- `ranking` — fuzzy search (scores from `nucleo-matcher`), preference order.
- `workflow` — validation of user workflows.
- `live_database` — import of Live's plug-in index.
- `daemon` — hello checks, frame limits, request routing, the daemon's own
  answers and decisions (workflow runs, index imports), streamed scans.
- `forwarding` — requests waiting on Live's integrations: the pending table,
  the time-out, and the one reply each forwarded request gets.
- `client`, `cli` — the command bar's and the test client's side of a
  connection.
- `settings`, `command_bar`, `palette`, `platform` — content groups, result
  grouping and the command bar as a state machine over keys and replies.
- `paths` — runtime files, and the configuration's loopback address.
- `text`, `tables`, `sorting`, `json` — supporting definitions.

`app/` holds the programs around it (`daemon` and `cli` subcommands): sockets,
files, SQLite, JSON and the command line.  `tests/` runs the library on
concrete cases.
