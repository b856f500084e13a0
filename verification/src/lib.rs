//! qfs: the pure core of a path-addressed query tool.
//!
//! Every service is a tree of paths and every operation a small statement over them. This crate
//! holds the parts of that tool that decide and compute: the statement grammar, the row model, the
//! renderers, the credential envelope and the decisions behind each command. What reads and writes
//! the world lives in the program around it.
pub mod cloud_mounts;
pub mod command;
pub mod connections_config;
pub mod dashboard;
pub mod gdrive;
pub mod git;
pub mod gmail;
pub mod http;
pub mod json;
pub mod output;
pub mod parser;
pub mod plan;
pub mod read_facets;
pub mod secrets;
pub mod shell;
pub mod slack;
pub mod sql_backends;
pub mod sys;
pub mod text;
pub mod txn;
pub mod types;
