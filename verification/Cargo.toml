[package]
name = "dexter_client"
version = "0.1.0"
edition = "2021"
publish = false

[dependencies]
base64 = "=0.22.1"
bincode = "=1.3.3"
borsh = "*"
bs58 = "=0.5.1"
once_cell = "*"
serde = "*"
serde_json = "*"
solana-banks-client = "=2.3.13"
solana-banks-interface = "=2.3.13"
solana-sdk = "=2.3.1"
tarpc = "=0.35.0"
thiserror = "*"
tokio = "*"
