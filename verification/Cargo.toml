[package]
name = "serde_buf"
version = "0.1.0"
edition = "2021"
publish = false

[dependencies]
serde = "*"
serde_core = "*"

[dev-dependencies]
serde_test = "*"
