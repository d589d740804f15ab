//! A stateful processor for streams of record batches.
//!
//! The processor keeps named maps from strings to strings. For every row of a batch it runs a
//! list of operations (reads, writes, upserts, conditional updates, deletes) on them, each one
//! seeing what the ones before it wrote. The answers are appended to the batch as columns, and a
//! final projection over all the columns makes the batch that goes out. What was written since
//! the last checkpoint is what the next one writes to the durable tables.
//!
//! - [`model`] says what running operations over rows means; [`laws`] and [`plan_laws`] say what
//!   follows from it for the whole.
//! - [`state_laws`], [`row_laws`], [`batch_laws`] and [`config_laws`] say what single operations,
//!   rows, batches and configurations come to, and [`call_laws`] what calls hand back.
//! - [`ops`], [`state`], [`results`] and [`processor`] run the operations.
//! - [`config`] and [`constructor`] make a processor from its configuration.
//! - [`planner`] and [`planning`] hold the node of the logical plan and make the configuration
//!   from it.
//! - [`columns`], [`schema`], [`evaluation`], [`encoded`] and [`logical`] reach into Arrow,
//!   DataFusion and Prost. What is believed of those crates stands there, and nowhere else.
pub mod batch_laws;
pub mod call_laws;
pub mod columns;
pub mod config;
pub mod config_laws;
pub mod constructor;
pub mod encoded;
pub mod evaluation;
pub mod laws;
pub mod logical;
pub mod model;
pub mod ops;
pub mod plan_laws;
pub mod planner;
pub mod planning;
pub mod processor;
pub mod results;
pub mod row_laws;
pub mod schema;
pub mod state;
pub mod state_laws;
pub mod text;
