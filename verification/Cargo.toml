[package]
name = "jarvis_core"
version = "0.1.0"
edition = "2021"
publish = false

[dependencies]
rand = "0.8"
chrono = "*"
bollard = "*"
tokio = { version = "*", features = ["full"] }
flate2 = "*"
tar = "*"
serde = { version = "*", features = ["derive"] }
serde_yaml = "*"
structopt = "*"
colored = "*"
gh-emoji = "*"
path-absolutize = "*"
ansi-escapes = "*"
futures-util = "*"
