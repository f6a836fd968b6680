[package]
name = "jupiter_swap_api_client"
version = "0.1.0"
edition = "2021"
publish = false

[dependencies]
solana-sdk = "*"
bs58 = "*"
rust_decimal = "*"
serde = { version = "*", features = ["derive"] }
serde_json = "*"
