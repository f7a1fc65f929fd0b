[package]
name = "spaceadom"
version = "0.1.0"
edition = "2021"
publish = false

[dependencies]
serde = { version = "1", features = ["derive"] }
serde_json = "1"
log = "0.4"
base64 = "0.22"
png = "0.17"
crossbeam-channel = "0.5"
