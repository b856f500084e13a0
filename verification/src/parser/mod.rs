//! The statement parser: the syntax tree, the parse error and the grammar.
pub mod ast;
pub mod error;
pub mod grammar;
pub mod writing;

pub use ast::{CmpOp, Expr, Literal, Path, PipeOp, Stmt};
pub use error::{ParseError, ParseErrorCode};

pub use grammar::parse;
