# ast_tools

Structural code analysis over syntax trees, verified with Verus.

- `src/syntax.rs` — a plain-value arena model of a syntax tree (`SyntaxTree`, with its
  well-formedness invariant) and its conversion from a `tree_sitter::Tree`.
- `src/extractors/` — functions, classes, imports, exports, outlines, chunks and
  enclosing nodes, each specified by a spec function over the tree; query results,
  specified over the matches the tree-sitter query engine reports.
- `src/positions.rs` — conversion between (line, character) positions and byte offsets.
- `src/extraction/`, `src/context/` — calls, literals, member accesses, template
  literals, nodes at a range, scopes, node text and the plan of a context pack under a
  byte budget.
- `src/frameworks/` — detectors of routes, decorators, dependency edges, schemas, React
  components and hooks, and tests, over a common visitor (`src/visit.rs`).
- `src/analysis/`, `src/cache/`, `src/config/`, `src/hashing.rs`, `src/text.rs` —
  keyword statistics, structural fingerprints, TTL caches and their keys, runtime
  configuration with its environment and runtime overrides, and text helpers.
- `app/` — the unverified edge: environment access, JSON rendering, argument parsing
  with serde, and the tree-sitter-driven entry points.
- `tests/` — scenario tests run against the compiled library.
