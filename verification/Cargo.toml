[package]
name = "fxswap"
version = "0.1.0"
edition = "2021"
publish = false

[dependencies]
soroban-sdk = "=20.5.0"

[dev-dependencies]
soroban-sdk = { version = "=20.5.0", features = ["testutils"] }
arbitrary = "=1.3.2"
derive_arbitrary = "=1.3.2"
