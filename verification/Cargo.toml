[package]
name = "tufia"
version = "0.1.0"
edition = "2021"
publish = false

[dependencies]
anchor-lang = { version = "=0.30.1", features = ["init-if-needed"] }
session-keys = { version = "=2.0.5", features = ["no-entrypoint"] }
solana-program = "=1.18.26"
