# ssl_engine

Core of a RoboCup Small Size League engine, written in Verus: every function
under `src/` carries a contract that Verus proves.

## Layout

- `src/referee.rs` — referee command names and the game state holding the last one.
- `src/packet.rs` — the five-byte-per-robot radio packet encoding.
- `src/text.rs` — integer parsing and printing, trimming and splitting, as Rust's
  `str` methods do them.
- `src/script.rs` — the strategy script's lifecycle (loaded, running, paused, failed).
- `src/console.rs` — the interactive console commands.
- `src/logger.rs`, `src/log_writer.rs` — log file names, column sets, and the
  rows that wait for their tick to complete.
- `src/path_planner.rs` — splitting a blocked path at subgoals and shortening it.
- `src/vision.rs` — packets-per-second measurement of the vision feed.
- `src/gui/` — the interface state machines: panels, sidebar, toolbar, bottom
  bar, charts layout, Lua console log, replay timeline and replay log reading,
  and `app.rs`, which turns each interface message into a new state and the
  actions to perform.

`app/` is the engine program around the library: sockets, the serial port,
the Lua interpreter, files, and the floating-point geometry and control.
`tests/` exercises the library on concrete values.
