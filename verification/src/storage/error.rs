//! Errors of the storage layer.

use vstd::prelude::*;
use crate::json::bridge::error_text;
use crate::text::string_of;

verus! {

/// What went wrong while reading or writing `~/.SwitchHosts`.
#[derive(Debug, PartialEq)]
pub enum StorageError {
    /// A file could not be read or written.
    Io { path: String, reason: String },
    /// A file held something that does not parse.
    Parse { path: String, reason: String },
    /// A document could not be printed.
    Serialize { path: String, reason: String },
    /// A value given by the caller is not acceptable.
    InvalidConfigValue { key: String, reason: String },
}

impl StorageError {
    /// The error for a document that could not be printed to `path`.
    pub fn serialize(path: &str, e: &serde_json::Error) -> (r: StorageError)
        ensures
            r matches StorageError::Serialize { path: p, .. } && p@ == path@,
    {
        StorageError::Serialize { path: string_of(path), reason: error_text(e) }
    }
}

} // verus!
