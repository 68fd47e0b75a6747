[package]
name = "aur_client"
version = "0.1.0"
edition = "2021"
publish = false

[dependencies]
clap = "=4.6.7"
flate2 = "=1.1.10"
futures = "=0.3.34"
reqwest = { version = "=0.12.28", features = ["stream"] }
serde_json = { version = "=1.0.154", features = ["preserve_order"] }
tar = "=0.4.46"
term = "=1.2.1"
tokio = { version = "=1.54.1", features = ["rt", "sync"] }
url = "=2.5.8"
