[package]
name = "native_settlement"
version = "0.1.0"
edition = "2021"
publish = false

[dependencies]
anchor-lang = "=0.30.1"
wormhole-raw-vaas = "=0.3.0"
wormhole-solana-consts = "=0.3.0-alpha.1"
