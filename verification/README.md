# personal_server

A small server that speaks a binary message protocol over TCP, shows what it
receives in a terminal interface, and answers health requests over HTTP.

- `src/` is the library, verified with Verus: the wire format of the messages
  (`tcp_message`, `bytes`), their text rendering (`text`), what a client's
  session does on each event of its connection (`live_server`), the terminal
  interface's state and key handling (`tui_app`), the state behind the HTTP
  endpoints (`app_state`) and the keeping of the last CSV record
  (`flight_hours`).
- `app/` is the program around it: sockets, channels and tasks (tokio), the
  HTTP routes (axum, serde_json), the terminal (ratatui, crossterm,
  ratatui-textarea) and CSV reading (csv).
- `tests/` runs the library on concrete values.
