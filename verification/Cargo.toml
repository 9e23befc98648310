[package]
name = "mor_lms"
version = "0.1.0"
edition = "2021"
publish = false

[dependencies]
age = "0.11"
anyhow = "1"
argon2 = "0.5"
base64 = "0.22"
chacha20poly1305 = { version = "0.10", features = ["stream"] }
clap = { version = "4", features = ["derive"] }
keyring = "3"
openidconnect = { version = "3", default-features = false, features = ["ureq"] }
rand = "0.8"
rpassword = "7"
serde = { version = "1", features = ["derive"] }
serde_json = "1"
zeroize = "1"
