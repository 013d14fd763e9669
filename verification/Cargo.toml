[package]
name = "shielded_wallet"
version = "0.1.0"
edition = "2021"
publish = false

[dependencies]
concordium_base = "=3.2.0"
pairing = "0.15"
ff = "0.5"
hkdf = "0.12"
sha2 = "0.10"
hex = "0.4"
rand = "0.7"
serde = { version = "1.0", features = ["derive"] }
serde_json = "1.0"
anyhow = "1.0"
ed25519-dalek = "1.0"
wasm-bindgen = "0.2"
console_error_panic_hook = "0.1"
