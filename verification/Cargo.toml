[package]
name = "village_cli"
version = "0.1.0"
edition = "2021"
publish = false

[dependencies]
globset = "0.4"
tar = "0.4"
flate2 = "1"
base64 = "0.13"
serde_json = "1"
serde_yaml = "0.9"
chrono = "0.4"
reqwest = { version = "0.11", default-features = false, features = ["multipart", "json", "stream"] }
tokio = { version = "1", features = ["macros", "rt-multi-thread", "fs", "time"] }
tokio-util = { version = "0.7", features = ["codec"] }
tempfile = "3"
dirs = "5"
clap = { version = "4", features = ["derive"] }
serde = { version = "1", features = ["derive"] }
globwalk = "0.9"
