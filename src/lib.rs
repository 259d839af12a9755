//! Core of a modal terminal file manager: key chords resolved against
//! layered binding tables, a Normal / Visual / Command mode machine, the
//! command line with history and completion, and the decisions behind the
//! copy, cut, paste, delete, rename and mkdir operations.

pub mod keys;
pub mod text;
pub mod action;
pub mod bindings;
pub mod resolver;
pub mod config;
pub mod command_mode;
pub mod command_line;
pub mod files;
pub mod listing;
pub mod ui;
pub mod app;
