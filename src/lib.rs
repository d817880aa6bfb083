//! A small POSIX-like shell: a quote-aware tokenizer, a pipeline parser with
//! redirections, the builtin registry, and the decisions of the pipeline
//! execution engine and of the line editor. Everything here is pure; the
//! terminal, the file system and child processes are driven by the program
//! around this library.
pub mod text;
pub mod input_parser;
pub mod errors;
pub mod builtin_commands;
pub mod builtin_bodies;
pub mod command;
pub mod redirect;
pub mod engine;
pub mod history;
pub mod utilities;
pub mod editor;
