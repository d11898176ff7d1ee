[package]
name = "lager"
version = "0.5.0"
edition = "2021"
publish = false

[dependencies]
serde = { version = "=1.0.229", features = ["derive"] }
serde_json = "=1.0.154"
ureq = { version = "=2.12.1", features = ["json"] }
reqwest = { version = "=0.12.28", default-features = false, features = ["json"] }
rust_socketio = "=0.6.0"
tokio = { version = "=1.54.1", default-features = false, features = ["net", "io-util", "time"] }
