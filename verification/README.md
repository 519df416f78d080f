# nervusdb

The core of a small graph database, written in Verus: the functions in `src/` carry
contracts that the verifier proves. The calls into std that Verus has no
specification for (`str::to_lowercase`, `Path::with_extension`, `{:?}` formatting of a
string) and the one call into `serde_json` (`to_string` of a string) go through small
trusted wrappers; each says in its doc comment what its contract claims of the call and
what it leaves unsaid.

## Layout

- `src/core_db/` — the triple store: string dictionary, partitioning, the global index,
  the write-ahead log and the database that ties them together.
- `src/storage/` — the graph storage engine: property values, the bulk loader, the read
  path that walks edges through in-memory runs and compacted segments, and snapshots.
- `src/query/` — the Cypher front end: syntax tree, runtime values and rows (and reading
  them from a snapshot), label tests, WHERE and type validation, MATCH anchoring, the
  planner, the EXPLAIN text of plans (with the `Debug` text of the syntax tree, proved
  against its spec in `syntax_text.rs`) and prepared queries; the three-valued logic of
  `AND`/`OR`/`XOR`/`NOT` and the string operators (`logic.rs`), and the built-in functions
  over lists, strings, paths and the graph (`functions.rs`).
- `src/errors.rs` — error codes and categories shared by the language bindings;
  `src/node_payload.rs` — the JSON error payload of the Node binding.
- `src/text.rs`, `src/strmap.rs` — string helpers and a string-keyed map used throughout.
- `app/` — the unverified edge: opening databases on disk, JSON conversion of parameters
  and results, serde serialization of values, the last-error slot of the C interface and
  `math.add`.
- `tests/` — tests of the library from outside.

Laws that hold across functions are stated as public proof functions named `law_*`.

## Not in this crate

Running a plan against a snapshot, the recursive expression evaluator (equality,
comparison and arithmetic of values, comprehensions, quantifiers, pattern predicates), the
numeric, floating-point and temporal (date, time, duration) functions, the Cypher parser,
the segment and pager writers behind a commit, and the C, Node and Python entry points are
not part of this crate. The library plans and validates queries, renders EXPLAIN text,
reads values and rows from a snapshot, and holds the pieces of evaluation that do not
depend on those parts: the logical and string operators, the list, string, path and graph
functions, label tests, node materialization and procedure joins.
