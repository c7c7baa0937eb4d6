[package]
name = "certix_contract"
version = "0.1.0"
edition = "2021"
publish = false

[dependencies]
soroban-sdk = "*"
