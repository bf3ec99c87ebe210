[package]
name = "watch_run"
version = "0.1.0"
edition = "2021"
publish = false

[dependencies]
notify = "4"
serde = { version = "1", features = ["derive"] }
serde_json = "1"
lazy_static = "1"
chrono = "0.4"
backtrace = "0.3"
