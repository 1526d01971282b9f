[package]
name = "trident"
version = "0.1.0"
edition = "2021"
publish = false

[dependencies]
url = "=2.5.8"
toml = "=0.8.23"
simd-json = "=0.13.11"
reqwest = "=0.12.28"
http = "=1.5.0"
hyper = { version = "=1.12.0", features = ["client", "http1", "server"] }
hyper-util = { version = "=0.1.21", features = ["client-legacy", "http1", "tokio"] }
hyper-util-blutgang = { version = "0.2", features = ["tokio"] }
hyper-tls = "=0.6.0"
http-body-util = "=0.1.5"
bytes = "=1.12.1"
tokio = { version = "=1.54.1", features = ["full"] }
futures = "=0.3.34"
clap = "=4.6.7"
serde = { version = "=1.0.229", features = ["derive"] }
serde_json = "=1.0.154"
anyhow = "=1.0.104"
jemallocator = "=0.5.4"
jsonwebtoken = "=9.3.1"
sled = "=0.34.7"
