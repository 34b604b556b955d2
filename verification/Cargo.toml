[package]
name = "bakup"
version = "0.1.0"
edition = "2021"
publish = false

[dependencies]
aead = "0.5"
aes = "0.8"
anyhow = "1"
arrayvec = { version = "0.7", features = ["zeroize"] }
blake3 = { version = "1", features = ["pure", "traits-preview", "zeroize"] }
bytes = "1"
camino = { version = "1", features = ["serde1"] }
chacha20 = "0.9"
clap = { version = "4", features = ["derive"] }
const-hex = "1"
digest = "0.10"
ed25519-dalek = { version = "2", features = ["rand_core", "zeroize"] }
generic-array = { version = "0.14", features = ["zeroize"] }
indicatif = "0.17"
itertools = "0.14"
rand_core = { version = "0.6", features = ["getrandom"] }
rayon = "1"
serde = { version = "1", features = ["derive"] }
serde_json = "1"
serde_with = "3"
thiserror = "1"
tracing = "0.1"
walkdir = "2"
x25519-dalek = { version = "2", features = ["reusable_secrets", "static_secrets", "zeroize"] }
zeroize = { version = "1", features = ["derive"] }
