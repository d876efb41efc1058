//! Changelog generation from version-control history.
//!
//! Commits are sorted by their conventional-commit tag into features and
//! bugfixes, rendered as linked Markdown entries, and assembled into one
//! document covering several projects.

pub mod assemble;
pub mod classify;
pub mod gitlog;
pub mod model;
pub mod text;
