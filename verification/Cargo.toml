[package]
name = "rangeproofs"
version = "0.1.0"
edition = "2021"
publish = false

[dependencies]
curve25519-dalek = { version = "4", features = ["rand_core", "digest"] }
merlin = "3"
rand = "0.8"
sha3 = "0.10"
