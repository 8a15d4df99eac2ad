# CC-Tiles

A terminal UI for running and monitoring several coding sessions in parallel, each in a tile of a
grid. A tile shows what its session is doing, whether it waits for an answer or a permission, and
the branch and diff of its working directory.

- `src/` is the library, verified with Verus: the activity feed, the watcher that follows a
  session's transcript, the routing of hook events, the summary of a repository, a session's
  status and screen, and the grid.
- `app/` is the program around it: terminals, processes, files, threads and the HTTP server.
- `tests/` are the library's tests.

What the library takes on trust of other crates is declared next to where it is used, each with a
comment that says what is believed: JSON in `src/json.rs`, decoding in `src/text.rs`, the screen in
`src/terminal.rs` and the layout in `src/grid.rs`.
