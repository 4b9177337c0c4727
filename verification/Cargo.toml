[package]
name = "sensor_bus"
version = "0.1.0"
edition = "2021"
publish = false

[dependencies]
async-std = { version = "1", features = ["attributes"] }
libc = "0.2"
prometheus-client = "*"
tide = "0.16"
