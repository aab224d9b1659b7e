[package]
name = "password_privacy"
version = "0.1.0"
edition = "2021"

[dependencies]
blake2 = "*"
clap = { version = "*", features = ["derive"] }
colored = "*"
csv = "*"
fsb = "*"
md2 = "*"
serde = { version = "*", features = ["derive"] }
sha1 = "*"
sha2 = "*"
sha3 = "*"
whirlpool = "*"
