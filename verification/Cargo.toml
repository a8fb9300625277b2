[package]
name = "stellars_perps"
version = "0.1.0"
edition = "2021"
publish = false

[dependencies]
soroban-sdk = "*"
