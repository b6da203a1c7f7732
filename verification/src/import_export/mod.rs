//! Manual import and export of v3, v4 and v5 backup JSON files.

pub mod plan;
pub mod import;
pub mod export;
pub mod laws;
pub mod store;
