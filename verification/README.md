# rustmud

A small text MUD server. Players connect over telnet, log in, walk a map of
nodes, look around, climb, knock and open, fight, chat, keep friend lists and
follow the newcomers' quest line.

## Layout

- `src/` — the game's logic, verified with Verus: text and setting-file
  parsing, the map and quest loaders, the player table, every command, the
  lasting processes that follow a command (walking, fighting, climbing, quest
  steps), the login service and the service loop that runs one client message
  to its end. Commands do no I/O: they answer with a list of actions (send a
  message, send a file, start or stop a combat timer, drop a connection).
  `src/laws.rs` states the properties that span several functions.
- `app/` — the program around the library: command-line arguments, files,
  sockets, threads, the combat timers, logging and the JSON data files. It
  performs the actions the library asks for and hands the library plain values.
- `tests/` — tests of the library on concrete values.
