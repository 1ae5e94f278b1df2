[package]
name = "bech32m_convert"
version = "0.1.0"
edition = "2021"

[dependencies]
bech32 = "0.11"
bs58 = "0.5"
clap = { version = "4", features = ["derive"] }
