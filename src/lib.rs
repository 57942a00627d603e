//! Editing support for a status bar's JSONC configuration: a comment-stripping
//! scanner, JSON validation, backup naming and write planning, compositor
//! recognition and process-output handling.

pub mod compositor;
pub mod config;
pub mod error;
pub mod json;
pub mod jsonc;
pub mod process;
pub mod text;
pub mod writer;
