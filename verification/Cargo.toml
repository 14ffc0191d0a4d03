[package]
name = "resonance"
version = "0.1.0"
edition = "2021"
publish = false

[dependencies]
uuid = { version = "=1.29.0", features = ["v4"] }
rand = "=0.8.8"
chacha20poly1305 = "=0.10.1"
hkdf = "=0.12.4"
hmac = "=0.12.1"
sha2 = "=0.10.9"
x25519-dalek = { version = "=2.0.1", features = ["static_secrets"] }
base64 = "=0.21.7"
bincode = "=1.3.3"
serde = { version = "=1.0.229", features = ["derive"] }
toml = "=0.8.23"
dirs = "=5.0.1"
tokio = { version = "=1.54.1", features = ["full"] }
anyhow = "=1.0.104"
thiserror = "=1.0.69"
log = "=0.4.35"
env_logger = "=0.10.2"
clap = { version = "=4.6.7", features = ["derive"] }
crossterm = "=0.27.0"
ratatui = "=0.26.3"
arboard = { version = "=3.7.0", default-features = false }
qrcode = { version = "*", default-features = false }
