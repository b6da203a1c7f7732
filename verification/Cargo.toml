[package]
name = "switchhosts"
version = "0.1.0"
edition = "2021"
publish = false

[dependencies]
serde = { version = "1", features = ["derive"] }
serde_json = { version = "1", features = ["preserve_order"] }
chrono = "0.4"
log = "0.4"
thiserror = "2"
reqwest = "0.12"
