[package]
name = "docsentinel"
version = "0.1.0"
edition = "2021"
publish = false

[dependencies]
anyhow = "*"
async-trait = "*"
chrono = "*"
clap = { version = "*", features = ["derive"] }
crossterm = "*"
git2 = "*"
hex = "*"
notify = "*"
ratatui = "*"
reqwest = { version = "*", default-features = false, features = ["json", "rustls-tls"] }
rusqlite = { version = "*", features = ["bundled"] }
serde = { version = "*", features = ["derive"] }
serde_json = "*"
sha2 = "*"
tokio = { version = "*", features = ["rt-multi-thread", "macros", "time"] }
toml = "*"
tracing = "*"
tracing-subscriber = { version = "*", features = ["env-filter", "fmt"] }
tree-sitter = "*"
tree-sitter-python = "*"
tree-sitter-rust = "*"
uuid = { version = "*", features = ["v4"] }
walkdir = "*"
