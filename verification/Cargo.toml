[package]
name = "enclave_rpc"
version = "0.1.0"
edition = "2021"
publish = false

[dependencies]
lru = "*"
sha2 = "*"
ed25519-dalek = "*"
