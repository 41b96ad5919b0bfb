[package]
name = "htlc_escrow"
version = "0.1.0"
edition = "2021"
publish = false

[dependencies]
sha2 = "0.10"

[dev-dependencies]
hex = "0.4"
