//! A file slash-command pipeline for a code-editor workspace, together with a
//! small git-panel settings model.
//!
//! The library covers two stages that a command palette triggers: fuzzy path
//! completion over immutable worktree snapshots, and insertion of a file's
//! content as a fenced code block. Filesystem and UI work stays outside; the
//! library computes over plain values and an in-memory file store.

pub mod error;
pub mod text;
pub mod file_store;
pub mod git_panel;
pub mod git_panel_settings;
pub mod search;
pub mod slash_command;
pub mod worktree;

pub use error::{InsertionError, IoErrorKind};
