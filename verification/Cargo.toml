[package]
name = "mdrss"
version = "0.1.0"
edition = "2021"

[dependencies]
chrono = "0.4"
rss = "2"
serde = { version = "1", features = ["derive"] }
serde_yaml = "0.9"
walkdir = "2"
