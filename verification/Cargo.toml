[package]
name = "market_view"
version = "0.1.0"
edition = "2021"
publish = false

[dependencies]
backon = "=1.6.0"
futures = "=0.3.34"
http = "=1.5.0"
log = "=0.4.34"
reqwest = { version = "=0.13.5", default-features = false, features = ["json", "query"] }
rust_decimal = "=1.43.0"
serde = { version = "=1.0.229", features = ["derive"] }
serde_json = "=1.0.151"
tokio = { version = "=1.53.2", features = ["rt-multi-thread", "macros", "sync", "time", "net"] }
tokio-websockets = { version = "=0.13.3", features = ["client", "fastrand", "sha1_smol"] }
