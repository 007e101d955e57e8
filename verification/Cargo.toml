[package]
name = "pulse_protocol"
version = "0.1.0"
edition = "2021"
publish = false

[dependencies]
soroban-sdk = { version = "=26.1.1", features = ["hazmat-address"] }
