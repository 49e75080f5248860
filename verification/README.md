# phux_server

The decision core of a terminal server, written in Verus. Every function of the
library states in its contract what it returns or changes, and Verus proves it.

- `src/` is the library. It holds no sockets, channels or threads: it takes what
  happened as values and returns what is to be done. What it asks the machine
  itself is little: the time, the user it runs as, the rate of the kernel's
  clock, the memory that a buffer takes, and whether a payload is still held.
  Beside each function that asks stands one that takes the answer as an argument.
  - `policy/`: who may do what, with which grant, and what is held for approval.
  - `hub/`: the links to satellite servers, their routing, flow limits, request
    books, fences and mirrored metadata.
  - `resource/`: terminals and agent sessions, their events, records and
    native terminal-state exchange.
  - `native_state/`: captures, cuts and retained generations of a terminal.
  - `id_bridge`, `ids`, `metadata`, `proc_query`, `perf`: names and lookups.
  - `mailbox`, `table`, `assoc`, `text`, `wire`, `payload`, `json`, `clock`:
    what the rest is built from. The outside crates are called here, in
    `proc_query`, `policy/engine`, `native_state/cut` and
    `resource/terminal/events`, each behind a declared contract.
- `tests/` runs the library on concrete values, with the outside crates linked.
- `app/` is the ordinary Rust around it: channels, timeouts, process files, the
  grants of live connections and the terminal engine's traits.

Properties that relate several functions are the public proof functions whose
names begin with `law_`.
