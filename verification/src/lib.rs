//! Choosing which installed version of a piece of software is active.
//!
//! An installation directory holds one subdirectory per installed version and
//! an optional link named `current` that marks the active one. This library
//! holds the decisions: which entries are versions and in what order they are
//! shown, which version a link names, what a line of input selects, and which
//! operations on the link bring it in step with the selection.

pub mod active;
pub mod error;
pub mod link;
pub mod lister;
pub mod menu;
pub mod select;
pub mod session;
pub mod text;
