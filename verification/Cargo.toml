[package]
name = "metrics_bridge"
version = "0.1.0"
edition = "2021"
publish = false

[dependencies]
dipstick = "*"
tracing-core = "*"
tracing-subscriber = "*"
