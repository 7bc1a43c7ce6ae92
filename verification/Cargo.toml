[package]
name = "liminescreen"
version = "0.1.1"
edition = "2021"
publish = false

[dependencies]
sha2 = "=0.10.9"
serde = { version = "=1.0.229", features = ["derive"] }
serde_json = "=1.0.154"
log = "=0.4.35"
uefi = { version = "=0.41.0", features = ["alloc", "logger"] }
uefi-raw = "=0.17.0"
