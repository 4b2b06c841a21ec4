# eodhd_mcp

An MCP server for the EODHD financial-data API, built around a verified
library. The library (`src/`) holds the server's logic with contracts that
Verus proves; the binary (`app/`) does the I/O around it.

## Layout

- `src/json.rs` — the JSON model the library works on, with its
  mathematical value (`JsonV`) and object operations.
- `src/normalization.rs` — ISO date detection, slicing of date-keyed
  periodic tables (range and newest-N), newest-first ordering.
- `src/format.rs`, `src/table.rs` — the `<summary>/<data>/<metadata>`
  envelope, the choice of layout for a value, markdown tables, fenced JSON.
- `src/cache.rs` — cache lifetimes, expiry, and order-independent keys.
- `src/requests.rs`, `src/calls.rs` — what each API call sends, the tools'
  parameter checks, and the labels of their answers.
- `src/options.rs`, `src/paging.rs` — the options tool: request checks,
  query building, token masking, JSON:API flattening, and the pagination
  state machine.
- `src/compare.rs`, `src/financials.rs`, `src/health_check.rs`,
  `src/snapshot.rs` — option parsing, tables and prose of the composed tools.
- `app/` — the MCP server (rmcp), the HTTP client (reqwest), the SQLite
  cache (rusqlite), and the floating-point analytics (ratios, TTM rollups,
  scoring, outliers).

## Running

Set `EODHD_API_KEY` (the demo key is used otherwise). The cache lives next
to the binary unless `EODHD_CACHE_PATH` names another file;
`EODHD_CACHE_DISABLED=1` turns it off.
