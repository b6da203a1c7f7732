//! `trashcan.json`: nodes moved to the trashcan.

use vstd::prelude::*;
use crate::json::model::{Json, JsonValue, array_view};
use crate::json::bridge::{reads_back, spec_json_pretty, spec_parse_json, PARSE_DEPTH};
use crate::text::string_of;
use super::error::StorageError;
use super::manifest::{document_bytes, versioned_document, versioned_value};

verus! {

pub const TRASHCAN_FORMAT: &'static str = "switchhosts-trashcan";

/// The trashcan: its items, in order.
#[derive(Debug, PartialEq)]
pub struct Trashcan {
    pub format: String,
    pub schema_version: u32,
    pub items: Vec<JsonValue>,
}

impl Default for Trashcan {
    /// An empty trashcan in the current format.
    fn default() -> (r: Trashcan)
        ensures
            r.format@ == TRASHCAN_FORMAT@,
            r.schema_version == 1,
            r.items@.len() == 0,
    {
        Trashcan { format: string_of(TRASHCAN_FORMAT), schema_version: 1, items: Vec::new() }
    }
}

/// What `trashcan.json` holds for `items` (the shape a backup embeds).
pub open spec fn trashcan_document(items: Seq<Json>) -> Json {
    versioned_document(TRASHCAN_FORMAT@, "items"@, items)
}

impl Trashcan {
    /// The bytes of `trashcan.json` for these items. The caller writes them
    /// to `path` atomically. Printing always succeeds.
    pub fn save(&self, path: &str) -> (r: Result<Vec<u8>, StorageError>)
        ensures
            r is Ok,
            r matches Ok(b) ==> b@ == spec_json_pretty(trashcan_document(array_view(self.items@))),
            r matches Ok(b) ==> (reads_back(trashcan_document(array_view(self.items@)), PARSE_DEPTH as int)
                ==> spec_parse_json(b@) == Some(trashcan_document(array_view(self.items@)))),
    {
        let doc = versioned_value(TRASHCAN_FORMAT, "items", &self.items);
        document_bytes(&doc, path)
    }
}

} // verus!
