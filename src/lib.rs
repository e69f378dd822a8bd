//! A small columnar query engine: typed logical and physical expressions,
//! logical plans and their schemas, the planner that lowers them, and the
//! streaming physical operators (scan, projection, selection and hash
//! aggregation) over record batches.

pub mod error;
pub mod schema;
pub mod column;
pub mod text;
pub mod logical_expr;
pub mod data_source;
pub mod logical_plan;
pub mod physical_expr;
pub mod aggregate;
pub mod physical_plan;
pub mod planner;
pub mod optimizer;
pub mod execution;
