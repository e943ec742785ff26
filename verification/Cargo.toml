[package]
name = "stresster"
version = "0.1.0"
edition = "2021"
publish = false

[dependencies]
serde_json = "=1.0.151"
anyhow = "=1.0.104"
clap = "=2.34.0"
futures = "=0.3.34"
prettytable-rs = "=0.10.0"
reqwest = { version = "=0.12.28", default-features = false, features = ["json", "rustls-tls"] }
slog = "=2.8.2"
slog-async = "=2.8.0"
slog-term = "=2.9.2"
tokio = { version = "=1.53.2", features = ["rt-multi-thread", "macros", "sync", "signal"] }
