//! The mail driver.
pub mod query;
pub mod read;
