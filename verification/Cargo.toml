[package]
name = "proxycheck"
version = "0.1.0"
edition = "2021"
publish = false

[dependencies]
ip2proxy = { version = "=3.0.0", features = ["serde"] }
serde = { version = "=1.0.229", features = ["derive"] }
serde_json = "=1.0.154"
axum = "=0.6.20"
hyper = { version = "=0.14.32", features = ["server", "http1", "tcp"] }
clap = { version = "=3.2.25", features = ["derive", "env"] }
tokio = { version = "=1.54.1", features = ["full"] }
listenfd = "=1.0.2"
