[package]
name = "passbox"
version = "0.1.0"
edition = "2021"
publish = false

[dependencies]
argon2 = "*"
rust-crypto = "*"
rand = "0.8"
uuid = { version = "*", features = ["v4"] }
zeroize = "*"
serde = { version = "*", features = ["derive"] }
serde_json = "*"
inquire = "*"
cli-clipboard = "*"
