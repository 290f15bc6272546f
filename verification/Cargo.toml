[package]
name = "masday_mcp"
version = "0.1.0"
edition = "2021"
publish = false

[dependencies]
percent-encoding = "2"
chrono = "0.4"
serde = { version = "1", features = ["derive"] }
serde_json = "1"
tokio = { version = "1", features = ["full"] }
reqwest = { version = "0.12", default-features = false, features = ["json", "rustls-tls"] }
rusqlite = { version = "0.32", features = ["bundled"] }
uuid = { version = "1", features = ["v4"] }
home = "0.5"
once_cell = "1"
tracing = "0.1"
