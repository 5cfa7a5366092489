[package]
name = "argonautica"
version = "0.1.0"
edition = "2021"
publish = false

[dependencies]
base64 = "=0.22.1"
futures = { version = "=0.3.34", features = ["thread-pool"] }
