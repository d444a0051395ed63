[package]
name = "coinbacked"
version = "0.1.0"
edition = "2021"
publish = false

[dependencies]
solana-program = "=5.1.0"
spl-token = { version = "=9.0.0", features = ["no-entrypoint"] }
solana-system-interface = { version = "=3.3.0", features = ["bincode"] }
