[package]
name = "treekem_hkdf"
version = "0.1.0"
edition = "2021"
publish = false

[dependencies]
ring = "=0.17.14"
parity-scale-codec = { version = "=3.7.5", features = ["derive"] }
anyhow = "=1.0.104"
rand = "=0.8.8"
thiserror = "=1.0.69"
web3 = { version = "=0.19.0", default-features = false }
hex = "0.4"
base64 = "0.13"
