//! A theme manager's verified core: a path-grammar matcher that projects a
//! directory tree onto typed, captured entries, and the description readers
//! and installation planner built on it.
//!
//! Path-segment names are read as dash-separated tokens of a small
//! positional grammar ([`tree_reader`]). The same logical token sequence may
//! sit in one flat name or be split across nested directories; a literal
//! token may also appear as a pluralized container directory. A traversal
//! returns each matched path with the values captured by the grammar's
//! wildcard and pattern tokens. Everything works on an in-memory snapshot of
//! the tree ([`fs_tree`]); reading a real filesystem into the snapshot, and
//! carrying out the plans the library computes, is the caller's part.

pub mod error;
pub mod fs_tree;
pub mod hooks;
pub mod install;
pub mod manager;
pub mod pattern;
pub mod read_dir;
pub mod str_map;
pub mod templates;
pub mod template;
pub mod themes;
pub mod toml_text;
pub mod strings;
pub mod tree_reader;
