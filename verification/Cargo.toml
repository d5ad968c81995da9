[package]
name = "fastlink"
version = "0.1.0"
edition = "2021"
publish = false

[dependencies]
crc32fast = "1"
rand = "0.8"
rand_chacha = "0.3"
blake3 = "1"
sha2 = "0.10"
sha1 = "0.10"
hkdf = "0.12"
ring = "0.17"
x25519-dalek = { version = "2", features = ["static_secrets"] }
aes-gcm = "0.10"
chacha20poly1305 = "0.10"
dashmap = "5"
bincode = "1"
serde = { version = "1", features = ["derive"] }
serde_json = "1"
toml = "0.8"
tokio = { version = "1", features = ["full"] }
tracing = "0.1"
tracing-subscriber = { version = "0.3", features = ["env-filter", "json"] }
clap = { version = "4", features = ["derive"] }
uuid = { version = "1", features = ["v4"] }
if-addrs = "0.10"
bytes = "1"
thiserror = "1"
async-trait = "0.1"
