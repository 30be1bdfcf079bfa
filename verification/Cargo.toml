[package]
name = "quorumkeys"
version = "0.1.0"
edition = "2021"
publish = false

[dependencies]
aes-kw = { version = "0.2", features = ["alloc"] }
argon2 = "0.5"
bincode = "1"
blake3 = "1"
chacha20poly1305 = "0.10"
ed25519-dalek = "2"
rand = "0.7"
sha2 = "0.10"
threshold_crypto = "0.4"
x25519-dalek = { version = "2", features = ["static_secrets"] }
