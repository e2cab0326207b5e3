[package]
name = "crabcode"
version = "0.1.0"
edition = "2021"
publish = false

[dependencies]
anyhow = "1"
dirs = "*"
ratatui = "0.29"
serde_json = "1"
shlex = "1"
tokio = { version = "1", features = ["sync", "rt", "time"] }
tokio-util = "0.7"
