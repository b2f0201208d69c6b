[package]
name = "crev_core"
version = "0.1.0"
edition = "2021"
publish = false

[dependencies]
ed25519-dalek = "=2.2.0"
base64 = "=0.13.1"
aes-siv = "=0.8.0"
rust-argon2 = "=2.1.0"
rand = "=0.8.8"
crev-common = "=0.27.1"
chrono = "=0.4.45"
