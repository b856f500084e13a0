//! The driver for the tool's own administration.
pub mod applier;
