[package]
name = "roan"
version = "0.1.0"
edition = "2021"
publish = false

[dependencies]
anyhow = "1"
thiserror = "*"
colored = "*"
log = "0.4"
regex = "1"
chrono = "0.4"
tracing = "0.1"
