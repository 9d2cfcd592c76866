[package]
name = "xerv-core"
version = "0.1.0"
edition = "2021"
publish = false

[dependencies]
byteorder = "=1.5.0"
uuid = { version = "=1.29.0", features = ["v4"] }
sha2 = "=0.10.9"
hex = "=0.4.3"
chrono = "=0.4.45"
serde = { version = "=1.0.229", features = ["derive"] }
serde_json = "=1.0.154"
serde_yaml = "=0.9.34"
thiserror = "=2.0.21"
parking_lot = "=0.12.5"
tokio = { version = "=1.54.1", features = ["sync", "time", "rt", "macros"] }
memmap2 = "=0.9.12"
fs2 = "=0.4.3"
tracing = "=0.1.44"
deadpool-redis = "*"
async-nats = "*"
futures-util = "*"
ts-rs = "*"
