[package]
name = "btc_txsign"
version = "0.1.0"
edition = "2021"
publish = false

[dependencies]
bitcoin = { version = "0.30", features = ["rand-std"] }
