[package]
name = "sinks"
version = "0.1.0"
edition = "2021"
publish = false

[dependencies]
async-trait = "0.1"
mysql = "*"
rusqlite = { version = "*", features = ["bundled"] }
serde = { version = "1", features = ["derive"] }
serde_json = "1"
tokio = { version = "1", features = ["rt", "sync"] }
tracing = "0.1"
