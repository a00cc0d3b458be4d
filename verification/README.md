# rex_core

The viewer and relay server of Rex, an experiment data manager: a terminal
viewer that charts a running session's data streams and shows and edits its
configuration, and `rex serve`, which relays a session's TCP line protocol
over HTTP and a WebSocket.

- `src/` is the library, written in Verus: configuration values and their
  TOML and display forms (`value`, `text`), sorting (`sort`), the fuzzy file
  picker (`file_picker`), the state tab (`state`, `run_args`), the chart and
  connection state (`viewer`), keys and actions (`keys`, `action`), the
  viewer's state machine (`update`), the HTTP client's and the relay
  server's decisions (`transport`, `http`, `server`) and the database
  settings (`db`). Every function carries a contract that Verus proves.
- `app/` is the program around it: the terminal loop and drawing
  (ratatui, crossterm), the network connections (tokio, reqwest,
  tokio-tungstenite), the HTTP server (axum), file reading and directory
  scanning, and the serde forms of the library's data.
- `tests/` runs the library on concrete values.
