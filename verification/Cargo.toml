[package]
name = "dht"
version = "0.1.0"
edition = "2021"
publish = false

[dependencies]
bytes = "1"
dyn-clone = "1"
ed25519-dalek = "2"
flume = "0.11"
lru = "0.12"
serde = { version = "1", features = ["derive"] }
serde_bencode = "0.2"
serde_bytes = "0.11"
sha1_smol = "1"
thiserror = "2"
tracing = "0.1"
