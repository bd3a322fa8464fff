[package]
name = "edbookmark"
version = "0.1.0"
edition = "2021"
publish = false

[dependencies]
chrono = { version = "=0.4.45", features = ["serde"] }
uuid = { version = "=1.29.0", features = ["v4"] }
fuzzy-matcher = "=0.3.7"
dirs = "=5.0.1"
serde = { version = "=1.0.229", features = ["derive"] }
serde_json = "=1.0.154"
toml = "=0.8.23"
ratatui = "=0.29.0"
crossterm = "=0.28.1"
calamine = "=0.27.0"
rust_xlsxwriter = "=0.79.4"
