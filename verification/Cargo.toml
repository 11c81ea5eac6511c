[package]
name = "marko_core"
version = "0.1.0"
edition = "2021"
publish = false

[dependencies]
notify = "*"
serde = { version = "*", features = ["derive"] }
serde_json = "*"
walkdir = "*"
