[package]
name = "fdo-data-formats"
version = "0.1.0"
edition = "2021"
publish = false

[dependencies]
serde = { version = "1", features = ["derive"] }
serde_bytes = "0.11"
serde_tuple = "0.5"
serde_repr = "0.1"
serde_cbor = "0.11"
ciborium = "0.2"
minicbor-serde = { version = "*", features = ["alloc"] }
pem = "3"
openssl = "0.10"
rand = "0.8"
regex = "1"
anyhow = "1"
