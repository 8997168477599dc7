[package]
name = "svd_rs"
version = "0.1.0"
edition = "2021"
publish = false

[dependencies]
regex = "1"
globset = "0.4"
yaml-rust = "0.4"
linked-hash-map = "0.5"
serde = { version = "1", features = ["derive"] }
thiserror = "1"
anyhow = "1"
commands = "*"
once_cell = "1"
