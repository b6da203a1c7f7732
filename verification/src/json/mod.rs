//! JSON documents as plain values.
//!
//! The manifest tree, backup files and renderer replies are JSON. The
//! library holds them in a type of its own (`JsonValue`) with a
//! mathematical view (`Json`), reads them through the accessors of
//! `access`, and parses and prints them through `serde_json` (`bridge`).
//! Objects keep their members in insertion order, as `serde_json` does
//! with its `preserve_order` map.

pub mod model;
pub mod access;
pub mod bridge;
