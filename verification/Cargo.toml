[package]
name = "slack_r"
version = "0.1.4"
edition = "2021"
publish = false

[dependencies]
chrono = "0.4"
rand = "0.8"
serde = { version = "1", features = ["derive"] }
serde_json = "1"
surf = { version = "2", default-features = false, features = ["h1-client-rustls"] }
async-std = "1"
async-trait = "0.1"
clap = "2"
log = "0.4"
simplelog = "0.12"
