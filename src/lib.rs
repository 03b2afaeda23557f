//! Continuous SQL stream processing: a value and schema model, expression
//! evaluation over record batches, windowed aggregation, the control
//! discipline of processors, query planning and explanation, and the byte
//! formats of plan snapshots and stored records.


pub mod text;
pub mod datatypes;
pub mod value;
pub mod cast;
pub mod expr;
pub mod batch;
pub mod schema;
pub mod aggregation;
pub mod window;
pub mod stream;
pub mod plan;
pub mod varint;
pub mod snapshot;
pub mod storage;
pub mod cli;
pub mod json;
pub mod sql;
pub mod query;
pub mod explain;
pub mod manager;
pub mod shared;
pub mod plan_copy;
pub mod plan_ir;
pub mod lowering;
