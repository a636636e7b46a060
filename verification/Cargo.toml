[package]
name = "sleepwalk"
version = "0.1.0"
edition = "2021"
publish = false

[dependencies]
anyhow = "1"
bytes = "1"
clap = { version = "4", features = ["derive"] }
crc32fast = "=1.5.4"
hdrhistogram = { version = "=7.6.0", default-features = false }
http-body-util = "0.1"
hyper = { version = "1", features = ["client", "server", "http1"] }
hyper-util = { version = "0.1", features = ["tokio"] }
libc = "0.2"
metrics = "*"
metrics-exporter-prometheus = { version = "*", default-features = false, features = ["http-listener"] }
nix = { version = "*", features = ["net", "socket", "uio"] }
serde = { version = "1", features = ["derive"] }
serde_json = "=1.0.154"
thiserror = "*"
tokio = { version = "1", features = ["full"] }
tokio-vsock = "*"
toml = "*"
userfaultfd = "*"
uuid = { version = "=1.29.0", features = ["v4", "serde"] }
