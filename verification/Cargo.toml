[package]
name = "anki_forge"
version = "0.1.0"
edition = "2021"
publish = false

[dependencies]
sha1 = "=0.10.7"
hex = "=0.4.3"
blake3 = { version = "=1.8.7", features = ["pure"] }
base64 = "=0.22.1"
serde = { version = "=1.0.229", features = ["derive"] }
serde_json = "=1.0.154"
anyhow = "=1.0.104"
same-file = "=1.0.6"
serde_yaml = "0.9"
