[package]
name = "ferris_vault"
version = "0.1.0"
edition = "2021"
publish = false

[dependencies]
chacha20poly1305 = "=0.10.1"
hkdf = "=0.12.4"
hmac = "=0.12.1"
sha2 = "=0.10.9"
hex = "=0.4.3"
rand = "=0.9.5"
opaque-ke = { version = "=4.0.1", features = ["argon2", "std"] }
reqwest = { version = "=0.12.28", default-features = false, features = ["blocking"] }
cli-clipboard = "=0.4.0"
ratatui = "=0.29.0"
tui-textarea = "=0.7.0"
serde = { version = "=1.0.229", features = ["derive"] }
config = "=0.15.27"

[dev-dependencies]
bincode = "=2.0.1"
