# dimax

The logic of a terminal multiplexer's attach client, verified with Verus.

A daemon runs the processes (server-panes) and keeps each workspace's layout. The
client attaches to a workspace, shows its panes, and turns keys and mouse reports
into requests. This crate holds everything between the raw terminal bytes and the
requests and pictures that come of them.

* `src/` is the library. It performs no I/O: `App` takes input, replies and pushed
  events one at a time and answers each with a `Step`, which says what to send, copy
  or do next. Every function carries a contract; what holds across functions is
  stated in proof functions beside them and in `src/laws.rs`.
* `app/` is the program around it: terminal and socket, the wire format, the
  configuration file, and painting with ratatui.
* `tests/` runs the library against a small in-memory daemon and a test terminal.

What is taken on trust is marked where it stands: ratatui's `Layout::split` in
`src/layout.rs`, base64's encoder in `src/selection.rs`, and four items of the
standard library in `src/keys.rs`, `src/mouse.rs` and `src/text.rs`.
