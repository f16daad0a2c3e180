[package]
name = "dialog-repository"
version = "0.1.0"
edition = "2021"
publish = false

[dependencies]
async-stream = "0.3"
async-trait = "0.1"
base58 = "0.2"
blake3 = { version = "1", default-features = false, features = ["pure"] }
futures-util = "0.3"
parking_lot = "0.12"
serde = { version = "1", features = ["derive"] }
serde_ipld_dagcbor = "0.6"
thiserror = "2"
