[package]
name = "poh"
version = "0.1.0"
edition = "2021"
publish = false

[dependencies]
secp256k1 = { version = "0.20", features = ["rand-std", "bitcoin_hashes"] }
rand = "0.8"
sha2 = "0.10"
hex = "0.4"
ecies = { version = "0.2", default-features = false, features = ["pure"] }
rust-crypto = "0.2"
chrono = "0.4"
rmp-serde = "1"
serde = { version = "1", features = ["derive"] }
clap = { version = "4", features = ["derive"] }
rpassword = "7"
getopts = "0.2"
anyhow = "1"
protobuf = "2.18"
sequoia-openpgp = { version = "1", default-features = false, features = ["crypto-rust", "allow-experimental-crypto", "allow-variable-time-crypto"] }
pyo3 = "0.20"
