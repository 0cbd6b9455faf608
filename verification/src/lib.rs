//! The core of a small interactive shell: the tokenizer that splits a command
//! line into arguments, and the long-format directory listing.
pub mod ansi;
pub mod commands;
pub mod ls;
pub mod shell;
pub mod text;
pub mod tokenizer;
