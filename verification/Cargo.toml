[package]
name = "oproxy"
version = "0.1.0"
edition = "2021"
publish = false

[dependencies]
regex = "=1.13.1"
similar = "=2.7.0"
sha2 = "=0.10.9"
serde = { version = "=1.0.229", features = ["derive"] }
serde_json = "=1.0.154"
serde_yaml = "=0.9.34"
chrono = "=0.4.45"
reqwest = { version = "=0.12.28", default-features = false }
flate2 = "1"
brotli = "*"
zstd = "*"
base64 = "0.22"
