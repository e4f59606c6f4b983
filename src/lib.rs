//! A cost-based rewriter of analytic queries over one flat event table.
//!
//! For each query it picks the cheapest pre-aggregated rollup (materialized
//! view) from which the answer can be derived and emits SQL that reads it, or
//! SQL against the base table where no rollup serves.
//!
//! - `query`: the query IR and the rules that reject a malformed query.
//! - `mv`: view descriptors, the registry, type-partitioned siblings, and the
//!   statements that build and index them.
//! - `stats`: the statistics queries, and attaching their answers.
//! - `planner`: usability, selectivity, cost, and the choice of view.
//! - `sql`: the emitted statements.
//! - `hardware`: cost weights and row-group size from the machine's resources.
//! - `laws`: properties of the planner, proved.
//! - `profiling`, `results`, `text`: settings, result-file naming, and text helpers.

pub mod text;
pub mod query;
pub mod mv;
pub mod planner;
pub mod sql;
pub mod hardware;
pub mod laws;
pub mod profiling;
pub mod results;
pub mod stats;
