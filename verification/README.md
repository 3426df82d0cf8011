# codegraph_lsp

The query and analysis core of the CodeGraph language server, written in
Verus: every function in `src/` carries a contract that Verus proves.

- `src/graph.rs` — the code graph as plain values (typed nodes with the
  properties the analyses read, typed directed edges) and its updates, each
  keeping the graph well formed.
- `src/engine.rs`, `query.rs`, `primitives.rs`, `signature.rs`, `entry.rs`,
  `bfs.rs`, `traverse.rs`, `reach.rs` — the query engine: symbol information,
  import and signature search, entry points, callers and callees, graph
  traversal.
- `src/navigation.rs`, `lsp.rs`, `source.rs` — positions, locations,
  definitions, references, hover text, document symbols, call hierarchies.
- `src/uri.rs`, `location.rs` — the file a request's document URI names
  (through the URL type of the LSP types crate), the symbols the index holds
  for it, and the function a similarity request points at.
- `src/analysis.rs`, `impact.rs`, `coupling.rs`, `domain.rs`, `metrics.rs` —
  dependency and call graphs, impact analysis, coupling, complexity grades,
  each also answered from a request's raw document URI.
- `src/context.rs`, `edit.rs` — context for AI agents: the candidates for an
  intent, the selection of related symbols and usage examples under a token
  budget (the server reads their sources and builds the response), and the
  whole edit context of a symbol.
- `src/commands.rs`, `requests.rs` — routing of editor commands and custom
  requests, and the request and response records.
- `src/memory.rs`, `migration.rs`, `embedding.rs`, `git.rs`, `indexing.rs` —
  the decisions of the memory layer, store versions, embedding model
  settings, git commands and the indexing walk.
- `src/text.rs`, `pattern.rs` — string utilities and the regular expressions
  of the `regex` crate.

`app/` is the language server around the library: the LSP protocol, JSON,
file reading and the command line. `tests/` exercises the library.
