[package]
name = "translate_bot"
version = "0.1.0"
edition = "2021"
publish = false

[dependencies]
anyhow = "1"
futures-util = "0.3"
matrix-sdk = { version = "=0.17.0", default-features = false }
pulldown-cmark = "=0.13.6"
reqwest = { version = "0.13", default-features = false, features = ["json"] }
rusqlite = { version = "=0.39.0", features = ["bundled"] }
serde = { version = "1", features = ["derive"] }
serde_json = "1"
tokio = { version = "1", features = ["full"] }
toml = "0.9"
tracing = "0.1"
tracing-subscriber = { version = "0.3", features = ["env-filter"] }
