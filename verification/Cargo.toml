[package]
name = "snarkvm-parameters"
version = "0.1.0"
edition = "2021"
publish = false

[dependencies]
snarkvm-curves = "*"
snarkvm-utilities = "*"
anyhow = "1"
lazy_static = "1"
