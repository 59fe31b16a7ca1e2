# kibana-mcp-server

An MCP (Model Context Protocol) server that gives access to logs stored in
Kibana or Elasticsearch, over stdio or HTTP, with JSON-RPC 2.0. Its core is a
library verified with Verus; a thin program around it does the I/O.

## Layout

| Path | What it holds |
|---|---|
| `src/json.rs` | The JSON document model and lookups in the manner of `serde_json::Value` |
| `src/render.rs` | Compact and pretty JSON text |
| `src/text.rs` | Character-level helpers: comparison, prefixes, decimals, trimming |
| `src/headers.rs` | Request headers as the library reads them |
| `src/kibana.rs` | Credentials, backend detection, the requests sent and how replies are read |
| `src/format.rs` | Human-readable rendering of log entries and result pages |
| `src/tools.rs` | Tool arguments, and each tool call as a sequence of requests and replies |
| `src/mcp.rs` | JSON-RPC dispatch: `initialize`, `tools/list`, `tools/call` |
| `src/http.rs` | Bearer-token check, the session table, and the answers of `/mcp` and `/health` |
| `src/cli.rs` | The command line, help and version texts |
| `src/config.rs` | Configuration from environment variables |
| `app/` | The program: argument and environment reading, the reqwest transport, the stdio loop and the axum server |
| `tests/` | Tests of the library |

Every function in `src/` carries a contract that Verus proves. Three small
functions call outside code and have their contracts trusted: appending a
character to a string, writing a JSON string literal with `serde_json`, and
drawing a random session id with `uuid`.

The library decides and the program acts: a tool call is a `ToolTask` that
names the next request to send; the program sends it, hands the reply back,
and repeats until the task has its outcome.
