[package]
name = "evm_staking"
version = "0.1.0"
edition = "2021"
publish = false

[dependencies]
sp-core = "37.0.0"
sp-runtime = "42.0.0"
libsecp256k1 = "=0.7.2"
substrate-fixed = "=0.6.0"
frame-support = "41.0.0"
