[package]
name = "artifex"
version = "0.1.0"
edition = "2021"
publish = false

[dependencies]
anyhow = "1"
chrono = "0.4"
clap = { version = "4", features = ["derive"] }
humantime = "2"
nix = { version = "0.29", features = ["feature"] }
rand = "0.8"
uuid = { version = "1", features = ["v4"] }
