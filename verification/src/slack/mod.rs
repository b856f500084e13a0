//! The chat driver.
pub mod read;
