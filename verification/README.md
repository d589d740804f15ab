# stateful_processor

A verified operator for streams of Arrow record batches that keeps named maps of strings and runs
state operations (get, put, upsert, update, delete) over every row.

- `src/` is the library. Verus proves it against its contracts: what the maps hold after a batch,
  what every operation answers, what a checkpoint writes and what a restart gives back, and how a
  plan node becomes the operator's configuration. `src/laws.rs` and `src/plan_laws.rs` state what
  holds across functions.
- `tests/` runs the library with Arrow, DataFusion and Prost.
- `app/` puts the library into an engine: physical expressions, durable tables, collectors, and
  DataFusion's trait for plan nodes.

What is believed of the outside crates stands in `src/columns.rs`, `src/schema.rs`,
`src/encoded.rs` and `src/logical.rs`. Physical expressions come in as functions: nothing is
believed of how one evaluates.
