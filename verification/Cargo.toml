[package]
name = "merge_mp4"
version = "0.1.0"
edition = "2021"
publish = false

[dependencies]
regex = "1"
mp4 = "*"
which = "*"
tempfile = "3"
dirs = "*"
serde = { version = "1", features = ["derive"] }
serde_json = "1"
chrono = "0.4"
tokio = { version = "1", features = ["rt-multi-thread", "process", "io-util", "sync", "time"] }
