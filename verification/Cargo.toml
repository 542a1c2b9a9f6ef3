[package]
name = "notion_into_sqlite"
version = "0.1.0"
edition = "2021"
publish = false

[dependencies]
anyhow = "1"
clap = { version = "3", features = ["derive"] }
env_logger = "0.9"
log = "0.4"
reqwest = { version = "0.11", features = ["blocking", "json"] }
rusqlite = { version = "0.27", features = ["bundled"] }
serde_json = "1"
