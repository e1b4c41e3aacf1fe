# faiden

The native core of Faiden, a local-first desktop terminal organised around
enduring threads, with PTY shells and Hermes agent sessions over the Agent
Client Protocol. The decisions of the host are written in Verus and proved
against their contracts; the processes, pipes, threads and window around them
are ordinary Rust.

## Layout

- `src/` — the verified library.
  - `error.rs` — the one error type and its stable code/message shape.
  - `text.rs`, `clock.rs`, `json.rs` — text, the monotonic clock and a JSON
    value the protocol logic can read and build.
  - `db.rs`, `store/` — the SQLite store: validation of every write, the
    statements each operation issues (`Store::issued`), and the decoding of
    rows into records.
  - `terminal.rs` — streaming UTF-8 decoding, bounded scrollback with sequence
    numbers, start/write checks and a terminal's kill/exit lifecycle.
  - `environment.rs` — what Git's answers about a selected directory mean.
  - `agent/` — the ACP protocol (`protocol.rs`), line framing (`lines.rs`),
    finding Hermes and building its environment (`locate.rs`), the status and
    event vocabulary (`runtime.rs`), the state machine of one run
    (`run_state.rs`) and the properties every run keeps (`laws.rs`).
  - `lib.rs` — the root decisions of the command surface.
- `tests/` — behaviour on concrete values, including whole agent-run and
  terminal-lifecycle scenarios over a temporary database.
- `app/` — the host: PTYs, child processes, reader and waiter threads, Git
  invocations, the Tauri command surface, and the serialisable twins of the
  library's types.
