[package]
name = "myrti"
version = "0.1.0"
edition = "2021"
publish = false

[dependencies]
eyre = "0.6"
serde = { version = "1", features = ["derive"] }
serde_json = "1"
tokio = { version = "1", features = ["full"] }
camino = "1"
toml = "0.8"
globset = "0.4"
walkdir = "2"
nix = { version = "0.29", features = ["signal"] }
thiserror = "1"
tracing = "0.1"
