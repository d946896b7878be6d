//! Core of a small interactive shell: tokenizing an input line under
//! Bourne-style quoting rules, extracting redirections, building a pipeline
//! of command records wired by abstract pipe endpoints, dispatching
//! built-ins, and rendering their output.
//!
//! Everything here is pure logic over strings and plain values; the
//! surrounding program does the terminal, file and process work.
pub mod builtins;
pub mod complete;
pub mod exec_index;
pub mod history;
pub mod pipeline;
pub mod redirect;
pub mod strutil;
pub mod tokenize;
