//! The core of an interactive command-line shell: tokenizing a raw input
//! line under POSIX-like quoting rules, resolving redirection operators,
//! classifying and planning builtin and external commands, planning
//! pipelines, tab completion, and the line editor's key-event state
//! machine. Everything here is specified and verified; the surrounding
//! program supplies the terminal, the file system and process control,
//! and carries out the plans and effects these functions return.
pub mod completion;
pub mod dispatch;
pub mod editor;
pub mod history;
pub mod pipeline;
pub mod redirect;
pub mod text;
pub mod tokenizer;
