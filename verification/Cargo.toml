[package]
name = "gts_validator"
version = "0.1.0"
edition = "2021"
publish = false

[dependencies]
serde_json = "*"
serde-saphyr = "*"
colored = "*"
serde = { version = "*", features = ["derive"] }
anyhow = "*"
clap = { version = "*", features = ["derive"] }
glob = "*"
walkdir = "*"
