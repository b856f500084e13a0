//! The commands on connections and accounts.
//!
//! A command is a script: asked with what has happened so far, it says what to do next. The program
//! around the library does it, notes what came of it, and asks again, until the script finishes.
pub mod account;
pub mod connection;
pub mod script;
