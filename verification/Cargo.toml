[package]
name = "lazygitrs"
version = "0.1.0"
edition = "2021"
publish = false

[dependencies]
similar = { version = "=2.7.0", features = ["unicode"] }
serde = { version = "=1.0.229", features = ["derive"] }
serde_json = "=1.0.154"
serde_yaml = "0.9"
clap = { version = "=4.6.7", features = ["derive"] }
anyhow = "=1.0.104"
