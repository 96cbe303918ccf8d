[package]
name = "encosmo"
version = "0.1.0"
edition = "2021"
publish = false

[dependencies]
uuid = { version = "*", features = ["v4"] }
bimap = "*"
tokio = { version = "*", features = ["rt-multi-thread", "net", "sync", "time", "macros", "io-util"] }
log = "*"
simple_logger = "*"
anyhow = "*"
