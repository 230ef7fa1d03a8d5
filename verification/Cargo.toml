[package]
name = "rustot"
version = "0.1.0"
edition = "2021"
publish = false

[dependencies]
embedded-hal = "=0.2.7"
heapless = { version = "=0.7.17", features = ["serde", "ufmt-impl"] }
log = "0.4"
mqttrust = "=0.1.0"
serde = { version = "1", features = ["derive"] }
serde-json-core = { version = "=0.4.0", features = ["heapless", "std"] }
serde_cbor = "=0.11.2"
ufmt = "=0.1.2"
