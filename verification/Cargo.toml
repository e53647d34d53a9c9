[package]
name = "bio_did_registry"
version = "0.1.0"
edition = "2021"
publish = false

[dependencies]
pinocchio = { version = "=0.12.0", features = ["cpi", "account-resize"] }
pinocchio-system = { version = "=0.7.0", features = ["account-resize"] }
five8_const = "=1.0.0"
solana-address = { version = "=2.9.0", features = ["curve25519"] }
