[package]
name = "efile"
version = "0.1.0"
edition = "2021"
publish = false

[dependencies]
scrypt = { version = "*", default-features = false }
chacha20poly1305 = "*"
chacha20 = "*"
sha2 = "*"
base64 = "*"
rand = "0.8"
zip = { version = "2", default-features = false, features = ["deflate"] }
anyhow = "1"
clap = { version = "4", features = ["derive"] }
inquire = "*"
indicatif = "*"
walkdir = "2"
