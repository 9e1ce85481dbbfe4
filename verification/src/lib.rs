//! Rules of a bulk file-maintenance tool: which entries of a directory tree are
//! eligible, which of them are quarantined or renamed, and how the results add up.
//!
//! Everything here works on plain values. Walking the tree, moving and renaming
//! files and running the worker pool are left to the caller.

pub mod entry;
pub mod operation;
pub mod tally;
pub mod text;
pub mod trim;
