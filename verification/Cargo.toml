[package]
name = "sui_crypto"
version = "0.1.0"
edition = "2021"
publish = false

[dependencies]
anyhow = "=1.0.104"
base64ct = { version = "=1.8.3", features = ["alloc"] }
bcs = "=0.1.6"
digest = "=0.10.7"
fastcrypto = "=0.1.11"
rand = "=0.8.8"
roaring = "=0.11.5"
schemars = "=0.8.22"
serde = { version = "=1.0.229", features = ["derive"] }
serde-name = "=0.3.0"
serde_with = "=3.24.0"
sha3 = "=0.10.9"
signature = "=3.0.0"
