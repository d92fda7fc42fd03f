[package]
name = "membrid"
version = "0.1.0"
edition = "2021"
publish = false

[dependencies]
arrow-array = "*"
arrow-buffer = "*"
arrow-schema = "*"
arrow-select = "*"
blake3 = "1.5"
hex = "0.4"
serde = { version = "1", features = ["derive"] }
serde_json = "1"
thiserror = "2"
