[package]
name = "triton_vm"
version = "0.1.0"
edition = "2021"
publish = false

[dependencies]
twenty-first = "=3.1.1"
anyhow = "=1.0.104"
bincode = "=1.3.3"
serde = { version = "=1.0.229", features = ["derive"] }
