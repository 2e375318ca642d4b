# lan_game_scan

A LAN game-server browser and RCON administration tool. The library in
`src/` holds its logic, each function with a contract that Verus proves:

- `text`: character-level string functions (trim, split, lines, decimal
  numbers, string order) with exact specifications.
- `network`: IPv4 subnets, local and broadcast addresses, the choice of the
  local address a server sends its logs to, Steam ID conversion.
- `protocol`, `servers`, `scanner`, `broadcast`, `assoc`: decoding of Source,
  Quake 3 and GameSpy responses; the scanner's queries, challenge tokens,
  pings, retries and timeouts.
- `listing`: the plain server list, one entry (every field as text), reply
  or nothing per response, in the order responses arrive.
- `registry`: the server list, merged from scanner reports and aged out.
- `events`, `players`, `score`, `session`, `dashboard`: an RCON session's
  state as its live log changes it, admin chat commands, map lists, the
  commands sent when connecting and closing, and the open sessions.
- `connect`: opening an RCON session step by step (authentication, live log
  setup, console variables, MatchZy), and what closing it sends.
- `cvar`, `console`, `commands`: the console-variable database and its
  completions, the command line with history, and the server commands.
- `pretty`, `log_filter`: how a live log event reads in the web view, which
  lines the console and the chat panel show, and the console's filter of log
  kinds with its presets.
- `matchzy`: match configurations and the configuration hosted for MatchZy.
- `app_log`, `log_view`: the bounded application log and its viewer filters.

Laws that span several calls are public proof functions named `law_*`.

`app/` is the program around it: sockets, timers, the HTTP endpoints, the
tracing layer and saving the favourites to disk. `tests/` exercises the
library on concrete values.
