[package]
name = "star_escrow"
version = "0.1.0"
edition = "2021"
publish = false

[dependencies]
soroban-sdk = "22"
serde_json = "1"
hex = "0.4"
sha2 = "0.10"
anyhow = "1"
clap = { version = "4", features = ["derive", "env"] }
clap_complete = "4"
dialoguer = "0.11"
