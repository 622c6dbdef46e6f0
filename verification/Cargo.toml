[package]
name = "albatross_validator"
version = "0.1.0"
edition = "2021"
publish = false

[dependencies]
async-trait = "*"
beserial = "*"
bytes = "*"
futures = "*"
hex = "*"
libp2p = { version = "*", default-features = false, features = ["ed25519", "kad", "macros"] }
log = "*"
nimiq-bls = "*"
nimiq-collections = "*"
nimiq-hash = "*"
parking_lot = "*"
rand = "*"
thiserror = "*"
tokio = { version = "*", features = ["rt", "sync", "time"] }
