[package]
name = "meshtorus"
version = "0.1.0"
edition = "2021"
publish = false

[dependencies]
parking_lot = "0.12"
lock_api = "0.4"
anyhow = "1"
thiserror = "*"
serde = { version = "1", features = ["derive"] }
tracing = "0.1"
tokio = { version = "1", features = ["rt", "rt-multi-thread", "net", "io-util", "sync", "macros", "time"] }
float8 = "*"
nvml-wrapper = "*"
burn = { version = "0.22.1", default-features = false }
burn-optim = { version = "0.22.1", default-features = false }
