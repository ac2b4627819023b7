[package]
name = "llm_tui"
version = "0.1.0"
edition = "2021"
publish = false

[dependencies]
anyhow = "1"
chrono = "0.4"
copypasta = "0.10"
crossterm = "0.27"
dirs = "5"
pulldown-cmark = { version = "0.9", default-features = false }
ratatui = "0.23"
reqwest = { version = "0.11", features = ["json"] }
serde = { version = "1", features = ["derive"] }
serde_json = "1"
tokio = { version = "1", features = ["full"] }
