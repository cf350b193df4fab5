[package]
name = "engram_core"
version = "0.1.0"
edition = "2021"
publish = false

[dependencies]
async-trait = "=0.1.92"
bytes = "=1.12.1"
chrono = { version = "=0.4.45", features = ["serde"] }
futures = "=0.3.34"
hex = "=0.4.3"
serde = { version = "=1.0.229", features = ["derive"] }
serde_json = { version = "=1.0.154", features = ["preserve_order"] }
sha2 = "=0.10.9"
tokio = { version = "=1.54.1", features = ["io-util", "rt", "sync", "time"] }
toml = "=0.8.23"
tracing = "=0.1.44"
uuid = { version = "=1.29.0", features = ["serde", "v4"] }
