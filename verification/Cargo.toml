[package]
name = "paramguard"
version = "0.1.0"
edition = "2021"
publish = false

[dependencies]
sha2 = "*"
chrono = "*"
rusqlite = { version = "*", features = ["bundled"] }
serde = { version = "*", features = ["derive"] }
serde_json = "*"
serde_yaml_ng = "*"
toml = "*"
thiserror = "*"
clap = { version = "*", features = ["derive"] }
crossterm = "*"
ratatui = "*"
