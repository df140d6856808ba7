[package]
name = "predate"
version = "0.1.0"
edition = "2021"
publish = false

[dependencies]
chrono = "*"
clap = { version = "*", features = ["derive"] }
serde_json = "*"
serde_yaml = "*"
