[package]
name = "silent_scanner"
version = "0.1.0"
edition = "2021"
publish = false

[dependencies]
bitcoin = "=0.31.3"
secp256k1 = "=0.28.2"
silentpayments = "=0.2.0"
rayon = "=1.12.0"
clap = { version = "=4.6.7", features = ["derive"] }
env_logger = "=0.11.11"
log = "=0.4.34"
libbitcoinkernel-sys = "=0.0.23"
