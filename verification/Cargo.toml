[package]
name = "sdk_authorization_ed25519_dalek"
version = "0.1.0"
edition = "2021"
publish = false

[dependencies]
bincode = "1"
blake3 = { version = "1", features = ["pure"] }
ed25519-dalek = { version = "1", features = ["serde"] }
rayon = "1"
serde = { version = "1", features = ["derive"] }
thiserror = "1"
