[package]
name = "rustcode_tui"
version = "0.1.0"
edition = "2021"
publish = false

[dependencies]
unicode-width = "*"
serde_json = "1"
tokio = { version = "1", features = ["sync", "rt", "rt-multi-thread", "macros", "time"] }
notify = "*"
