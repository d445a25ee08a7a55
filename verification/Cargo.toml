[package]
name = "kaspa_pskt"
version = "0.1.0"
edition = "2021"
publish = false

[dependencies]
kaspa-consensus-core = "*"
kaspa-wallet-pskt = "*"
