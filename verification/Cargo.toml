[package]
name = "ipfs_proof_buddy"
version = "0.1.0"
edition = "2021"
publish = false

[dependencies]
anyhow = "1"
bao = "0.12"
blake3 = "1"
config = { version = "0.13", default-features = false, features = ["json"] }
ethers = { version = "2", default-features = false }
lazy_static = "1"
log = "0.4"
rocket = { version = "0.5", features = ["json"] }
serde = { version = "1", features = ["derive"] }
sled = "0.34"
tokio = { version = "1", features = ["rt-multi-thread", "macros", "time", "sync"] }
tokio-stream = "0.1"
typed-sled = "0.2"
