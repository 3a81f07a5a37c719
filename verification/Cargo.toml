[package]
name = "georoute"
version = "0.1.0"
edition = "2021"
publish = false

[dependencies]
rust-ini = "=0.21.3"
futures = "=0.1.31"
tokio-core = "=0.1.18"
trust-dns-resolver = "=0.9.1"
