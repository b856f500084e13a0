//! The row model: schemas, values and the predicates over them.
pub mod predicate;
pub mod schema;
pub mod value;

pub use schema::{Column, ColumnType, Schema};
pub use value::{Row, RowBatch, Value};
