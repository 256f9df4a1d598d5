[package]
name = "review_queue"
version = "0.1.0"
edition = "2021"
publish = false

[dependencies]
serde = { version = "=1.0.229", features = ["derive"] }
serde_json = "=1.0.151"
dirs = "=7.0.0"
warp = { version = "=0.4.3", features = ["server"] }
tokio = { version = "=1.53.2", features = ["rt-multi-thread"] }
