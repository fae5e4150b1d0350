[package]
name = "coinstr_sdk"
version = "0.1.0"
edition = "2021"
publish = false

[dependencies]
nostr = { version = "=0.45.5", features = ["nip04", "nip46", "os-rng"] }
nostr-sdk = "=0.45.4"
bdk = { version = "=0.30.2", default-features = false, features = ["std", "compiler"] }
tokio = { version = "=1.53.2", features = ["rt-multi-thread", "macros", "time"] }
