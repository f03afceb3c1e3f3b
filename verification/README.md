# sap_automate

An MCP (Model Context Protocol) server toolkit for SAP ABAP development, with its
logic written in Verus and proved against its contracts.

## Layout

- `src/` — the verified library.
  - `mcp/` — JSON-RPC ids and errors, the tool/resource/prompt catalogues with the
    read-only exposure policy, request routing, logging levels and argument
    completion, elicitation bookkeeping, the client's calls in flight and its handling
    of replies and server requests, and the HTTP/stdio transport decisions.
  - `adt/` — ABAP Development Tools: destinations, error taxonomy, the offline
    fixture backend, request planning for a live system (URLs, headers, bodies,
    status mapping) and the readers of its XML answers (through `quick-xml`).
  - `graph/` — the knowledge graph: entity store, the demo corpus, greedy modularity
    communities, RAPTOR levels and hop counts.
  - `channels.rs`, `automate.rs` — channel addressing and gateway routing; server
    options, instructions and defaults.
  - `workflows.rs`, `prompts.rs`, `tools.rs` — the decisions of the guided workflows,
    prompt templates, and the ABAP tool catalogue.
  - `tui/` — the operator console's state and its synthetic traffic feed.
  - `text.rs`, `order.rs`, `rank.rs`, `callspec.rs` — string, ordering and parsing
    helpers with their specifications.
  - `*/laws.rs` — properties relating several operations, as proof functions.
- `tests/` — executable tests of the library.
- `app/` — the binaries around it: async stdio/HTTP loops, JSON (serde) forms of the
  protocol types, the live HTTP backend (reqwest), the terminal UI (ratatui), and
  Personalised PageRank (floating point).
