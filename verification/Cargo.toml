[package]
name = "pg-wire"
version = "0.1.0"
edition = "2021"
publish = false

[dependencies]
arrow-array = "=60.0.0"
chrono = { version = "=0.4.45", default-features = false }
duckdb = { version = "=1.20000.0", features = ["r2d2"] }
r2d2 = "=0.8.10"
tokio = { version = "=1.54.1", features = ["full"] }
tokio-util = { version = "=0.7.20", features = ["codec"] }
futures = "=0.3.34"
bytes = "=1.12.1"
thiserror = "=1.0.69"
