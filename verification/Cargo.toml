[package]
name = "mint_tracking"
version = "0.1.0"
edition = "2021"
publish = false

[dependencies]
carbon-core = "=0.12.0"
carbon-pumpfun-decoder = "=0.12.0"
futures-util = "*"
log = "*"
solana-instruction = "*"
solana-message = "*"
solana-pubkey = "*"
