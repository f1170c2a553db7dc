//! Partition pruning for a table-format storage layer: typed partition filters,
//! partition-path parsing and the fail-open include decision.

pub mod error;
pub mod filter;
pub mod operator;
pub mod pruner;
pub mod text;
pub mod value;
