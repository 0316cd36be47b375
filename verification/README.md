# degov

A verified library for the DeGov government-services DSL and its workflow
engine, written in Verus.

## Layout

- `src/text.rs` — string helpers with exact contracts (joining, decimal text).
- `src/dsl/` — KDL documents (through the `kdl` crate), schemas and schema
  validation, the definition parser, data models and their inheritance graph
  (topological order through `petgraph`), syntax highlighting (through
  `regex`), and the definition types for models, workflows, permissions,
  credentials and services.
- `src/engine/` — identifiers and storage keys, the engine's data model, the
  decisions of the workflow engine (creating instances, triggering events and
  the ordered steps of a transition, pause/resume/cancel, task scheduling,
  claiming, settling and locking), the worker loop as a state machine, the
  keys of the task queue, and a key-value store.
- `src/lsp.rs` — positions and offsets in a document (through `ropey`) and the
  numbers the Language Server Protocol uses.
- `src/rpc_gen.rs` — the names and paths of generated RPC services.
- `app/` — what stays outside the verified library: terminal output, the
  per-thread store that scripts use, error reports for `miette`, YAML and
  JSON documents through `serde`, and the protobuf service code generator
  (`prost-build`, `quote`).
- `tests/` — tests of the library on concrete values.

Properties that span several functions are stated as public proof functions
next to the functions they are about, for example `topological_sort` (children
come before their parents), `retries_end_in_dead_letter`, `pause_then_resume`,
`lock_exclusive`, `kv_read_after_write`, `queue_keys_follow_time` and
`queue_keys_follow_priority`.
