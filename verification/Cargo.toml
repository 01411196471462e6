[package]
name = "sampling"
version = "0.1.0"
edition = "2021"
publish = false

[dependencies]
base64 = "=0.22.1"
failure = "=0.1.8"
futures = "=0.1.31"
rand = "=0.8.8"
rand_distr = "0.4"
serde = { version = "=1.0.229", features = ["derive"] }
serde_cbor = "=0.11.2"
serde_json = "=1.0.154"
tokio = "=0.1.22"
