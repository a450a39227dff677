[package]
name = "hurry"
version = "0.1.0"
edition = "2021"
publish = false

[dependencies]
async-compression = { version = "=0.4.52", features = ["tokio", "zstd"] }
async-tar = "=0.6.1"
axum = "=0.8.9"
blake3 = "=1.8.7"
cargo_metadata = "=0.23.1"
clap = { version = "=4.6.7", features = ["derive", "env"] }
color-eyre = "=0.6.5"
colored = "=3.1.1"
dashmap = "=6.2.1"
directories = "=6.0.0"
flume = "=0.12.0"
fslock = "=0.2.1"
futures = "=0.3.34"
hex = "=0.4.3"
home = "=0.5.12"
inquire = "=0.9.4"
libc = "=0.2.191"
num_cpus = "=1.17.0"
piper = "*"
reqwest = { version = "=0.12.28", default-features = false, features = ["brotli", "gzip", "json", "rustls-tls", "stream"] }
rusqlite = { version = "=0.41.1", features = ["bundled"] }
rustc-stable-hash = "=0.1.2"
serde = { version = "=1.0.229", features = ["derive", "rc"] }
serde_json = "=1.0.154"
sysinfo = "=0.40.1"
tokio = { version = "=1.54.1", features = ["full"] }
tracing = "=0.1.44"
tracing-subscriber = { version = "=0.3.23", features = ["env-filter"] }
url = { version = "=2.5.8", features = ["serde"] }
uuid = { version = "=1.29.0", features = ["v4", "serde"] }
