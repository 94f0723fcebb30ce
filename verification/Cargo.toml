[package]
name = "aptos_lc"
version = "0.1.0"
edition = "2021"
publish = false

[dependencies]
sha3 = "=0.10.9"
ed25519-dalek = "=2.2.0"
anyhow = "=1.0.104"
axum = "=0.7.9"
bcs = "=0.1.6"
clap = { version = "=4.6.7", features = ["derive"] }
reqwest = { version = "=0.12.28", default-features = false }
risc0-zkvm = { version = "1", default-features = false, features = ["client"] }
serde = { version = "=1.0.229", features = ["derive"] }
tokio = { version = "=1.54.1", features = ["rt-multi-thread", "macros", "net"] }
tracing = "=0.1.44"
