[package]
name = "offchain_signer"
version = "0.1.0"
edition = "2021"
publish = false

[dependencies]
parity-scale-codec = "=3.7.5"
futures = { version = "*", features = ["thread-pool"] }
log = "*"
parking_lot = "*"
structopt = "*"
tempfile = "*"
