[package]
name = "ironsign"
version = "0.1.0"
edition = "2021"
publish = false

[dependencies]
bitcoin = { version = "=0.32.102", features = ["rand-std"] }
bitcoincore-rpc = "=0.19.0"
cggmp24 = { version = "=0.7.0-alpha.3", features = ["curve-secp256k1", "insecure-assume-preimage-known"] }
cggmp24-keygen = "=0.7.0-alpha.3"
generic-ec = { version = "=0.4.5", features = ["curve-secp256k1", "serde"] }
hex = "=0.4.3"
paillier-zk = { version = "=0.7.0-alpha.3", default-features = false }
rand = "=0.8.8"
rmp-serde = "=1.3.1"
round-based = { version = "=0.4.1", features = ["sim"] }
serde = { version = "=1.0.229", features = ["derive"] }
sha2 = "=0.10.9"
tokio = { version = "=1.54.1", features = ["macros", "rt-multi-thread", "sync", "time"] }
