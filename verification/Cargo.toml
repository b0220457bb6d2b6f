[package]
name = "sterngate"
version = "0.1.0"
edition = "2021"
publish = false

[dependencies]
crc32fast = "=1.5.4"
sha2 = "=0.10.9"
base64 = "=0.22.1"
uuid = { version = "=1.29.0", features = ["v4"] }
chrono = "=0.4.45"
serde = { version = "=1.0.229", features = ["derive"] }
serde_json = "=1.0.154"
thiserror = "=2.0.21"
anyhow = "=1.0.104"
tokio = { version = "=1.54.1", features = ["rt-multi-thread", "macros", "sync", "time"] }
async-trait = "=0.1.92"
tracing = "=0.1.44"
tracing-subscriber = "0.3"
clap = { version = "4", features = ["derive"] }
rusb = "0.9"
socketcan = { version = "3", features = ["tokio"] }
