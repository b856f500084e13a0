//! The file driver.
pub mod read;
