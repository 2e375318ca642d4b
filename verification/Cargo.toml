[package]
name = "lan_game_scan"
version = "0.1.0"
edition = "2021"
publish = false

[dependencies]
tokio = { version = "1", features = ["rt-multi-thread", "net", "time", "sync", "macros"] }
tracing = "0.1"
tracing-subscriber = "0.3"
tracing-log = "0.2"
serde = { version = "1", features = ["derive"] }
serde_json = "1"
if-addrs = "*"
axum = { version = "*", default-features = false, features = ["http1", "tokio"] }
directories = "*"
reqwest = { version = "*", default-features = false }
