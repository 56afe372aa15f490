[package]
name = "tensor_vm"
version = "0.1.0"
edition = "2021"
publish = false

[dependencies]
sha2 = "0.10"
libp2p = { version = "*", default-features = false }
serde_json = "1"
tokio = { version = "1", features = ["rt", "time", "sync"] }
futures = "0.3"
