[package]
name = "echod"
version = "0.1.0"
edition = "2021"
publish = false

[dependencies]
anyhow = "=1.0.104"
futures = "=0.3.34"
nix = { version = "=0.30.1", features = ["feature", "fs", "poll", "process", "signal", "socket", "uio", "user"] }
rustls = { version = "=0.23.46", default-features = false, features = ["logging", "ring", "std", "tls12"] }
seccompiler = "=0.5.0"
serde = { version = "=1.0.229", features = ["derive"] }
serde_json = "=1.0.154"
tokio = { version = "=1.54.1", features = ["full"] }
tokio-rustls = { version = "=0.26.6", default-features = false, features = ["logging", "ring", "tls12"] }
tokio-util = { version = "=0.7.20", features = ["codec", "rt"] }
toml = "=1.1.8"
tracing = "=0.1.44"
tracing-subscriber = { version = "=0.3.23", features = ["env-filter", "json"] }
