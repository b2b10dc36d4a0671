//! Verified core of a manpage assistant.
//!
//! The library holds the logic of the tool: manpage discovery and parsing,
//! incremental index bookkeeping, configuration handling, prompt assembly,
//! response parsing, and the interactive selector's state machine. The
//! surrounding I/O (HTTP, terminal, files, databases) lives outside the
//! library and hands plain values in and out.

pub mod cli;
pub mod client;
pub mod config;
pub mod context;
pub mod guidance;
pub mod install;
pub mod models;
pub mod page;
pub mod prompt;
pub mod query;
pub mod response;
pub mod selector;
pub mod text;
pub mod tracker;
