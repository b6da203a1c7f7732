//! The `~/.SwitchHosts` storage layer: the manifest tree, the entry files,
//! and the errors they report.

pub mod tree_model;
pub mod manifest;
pub mod error;
pub mod entries;
pub mod trashcan;
pub mod tree_laws;
