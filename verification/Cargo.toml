[package]
name = "ledger_client"
version = "0.1.0"
edition = "2021"
publish = false

[dependencies]
hex = "=0.4.3"

[dev-dependencies]
parity-scale-codec = "3.7.5"
