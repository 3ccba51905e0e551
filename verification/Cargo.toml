[package]
name = "rustblockchain"
version = "0.1.0"
edition = "2021"
publish = false

[dependencies]
bincode = "1.3"
hex = "0.4"
serde = { version = "1", features = ["derive"] }
sha2 = "0.10"
