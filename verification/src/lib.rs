//! Verified core of the SwitchHosts hosts-file manager.

pub mod text;
pub mod version;
pub mod json;
pub mod storage;
pub mod hosts_apply;
pub mod import_export;
pub mod http;
pub mod lifecycle;
pub mod app_menu;
pub mod commands;
