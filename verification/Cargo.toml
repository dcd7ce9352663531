[package]
name = "convergio-ceo"
version = "0.1.0"
edition = "2021"
publish = false

[dependencies]
axum = "0.7"
regex-lite = "0.1"
reqwest = { version = "0.12", default-features = false, features = ["json"] }
rusqlite = { version = "0.32", features = ["bundled"] }
serde = { version = "1", features = ["derive"] }
serde_json = "1"
tokio = { version = "1", features = ["sync"] }
tracing = "0.1"
urlencoding = "2"
