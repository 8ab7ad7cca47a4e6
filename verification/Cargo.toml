[package]
name = "bot"
version = "0.1.0"
edition = "2021"
publish = false

[dependencies]
bs58 = "=0.5.1"
sha2 = "=0.10.9"
uuid = { version = "=1.29.0", features = ["v4"] }
rand = "=0.8.8"
smallvec = "=1.16.4"
dashmap = "=5.5.3"
tokio = { version = "=1.54.1", features = ["full"] }
serde = { version = "=1.0.229", features = ["derive"] }
serde_json = "=1.0.154"
toml = "=0.8.23"
anyhow = "=1.0.104"
tracing = "=0.1.44"
tracing-subscriber = { version = "=0.3.23", features = ["env-filter", "fmt"] }
clap = { version = "=4.6.7", features = ["derive"] }
prometheus = { version = "=0.13.4", default-features = false }
once_cell = "=1.21.4"
parking_lot = "=0.12.5"
arc-swap = "=1.9.3"
bytes = "=1.12.1"
fastrand = "=2.5.0"
bincode = "=1.3.3"
dotenv = "=0.15.0"
futures-util = "=0.3.34"
log = "=0.4.35"
base64 = "0.22"
