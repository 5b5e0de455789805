[package]
name = "treasury"
version = "0.1.0"
edition = "2021"
publish = false

[dependencies]
blake2-rfc = "=0.2.18"
parity-scale-codec = { version = "=1.3.7", features = ["derive"] }
serde = { version = "=1.0.229", features = ["derive"] }
sp-arithmetic = "=2.0.1"
sp-std = "=2.0.1"
sp-core = "=2.0.1"
sp-io = "=2.0.1"
sp-runtime = "=2.0.1"
sp-storage = "=2.0.1"
frame-support = "=2.0.1"
frame-system = "=2.0.1"
pallet-balances = "=2.0.1"
