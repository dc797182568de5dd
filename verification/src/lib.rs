//! An interactive command shell, split into verified components:
//! terminal input decoding, a cursor-aware edit buffer, a small command
//! grammar (sequencing, pipelines, redirection, assignment), and the
//! decision logic that turns parsed commands into units of execution.
//! All process and terminal I/O lives outside this crate; the library
//! works on plain values and returns plans, diagnostics and exit codes.

pub mod builtin;
pub mod common;
pub mod config;
pub mod executor;
pub mod parser;
pub mod input;
pub mod line;
pub mod processor;
pub mod shell;
pub mod terminal;
pub mod text;
