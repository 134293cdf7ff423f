[package]
name = "jormungandr"
version = "0.1.0"
edition = "2021"
publish = false

[dependencies]
lru = "=0.7.8"
futures = "=0.3.34"
tokio = { version = "=1.54.1", features = ["sync", "rt", "macros"] }
warp = { version = "=0.3.7", features = ["tls"] }
slog = "=2.8.2"
serde = { version = "=1.0.229", features = ["derive"] }
serde_json = "=1.0.154"
serde_yaml = "=0.8.26"
thiserror = "=1.0.69"
poldercast = "=0.13.4"
