[package]
name = "clear_msig"
version = "0.1.0"
edition = "2021"
publish = false

[dependencies]
anyhow = "1"
brine-ed25519 = "0.2"
ed25519-dalek = { version = "=2.2.0", features = ["rand_core"] }
sha2 = "=0.10.9"
solana-instruction = "=3.5.1"
solana-instruction-view = { version = "=2.1.0", features = ["cpi"] }
solana-keypair = "=3.1.2"
solana-pubkey = { version = "=3.0.0", features = ["curve25519"] }
solana-signer = "=3.0.1"
tempfile = "3"

[dev-dependencies]
rand = "0.8"
