//! A personal key-value store driven by command-line verbs.
//!
//! Every stored value can be read back as plain text, run as a shell command,
//! handed to the desktop opener, or edited as a file path. This crate holds the
//! rules: how a command line is split, which operation a verb selects, what each
//! operation does to the table of entries, and which external action a stored
//! value turns into. Reading and writing the backing file, starting processes and
//! printing are left to the caller.

pub mod command;
pub mod dispatch;
pub mod entry;
pub mod error;
pub mod laws;
pub mod report;
pub mod resolver;
pub mod statement;
pub mod store;
pub mod table;
pub mod text;
