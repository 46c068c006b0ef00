# embedded-gdb-mcp

An MCP server that drives GDB for embedded debugging. The logic lives in a
library verified with Verus (`src/`); the server itself — processes, the MCP
protocol, JSON — is ordinary Rust around it (`app/`).

- `src/registry.rs` — the table of open sessions, viewed as a map from id to session.
- `src/session.rs` — one session's state (ready, target, working directory), the
  reading of GDB's replies line by line, and the failures of the GDB process.
- `src/tools.rs` — each tool's arguments, the GDB commands it sends, the text it
  answers with, and the steps that find where a source listing comes from.
- `src/pattern.rs` — reading breakpoint numbers, `info line`, `info source` and
  listing line numbers out of GDB's output.
- `src/path.rs` — resolving a program's path against the working directory.
- `src/text.rs`, `src/error.rs` — characters, decimal numbers, white space; errors.
