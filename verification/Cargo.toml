[package]
name = "reticula"
version = "0.1.0"
edition = "2021"
publish = false

[dependencies]
reticulum-sdk = "*"
rmp-serde = "*"
rmpv = { version = "*", features = ["with-serde"] }
sha2 = "*"
ed25519-dalek = "*"
getrandom = "*"
rand_core = "*"
tokio = { version = "*", features = ["rt-multi-thread", "time", "sync", "macros"] }
log = "*"
env_logger = "*"
embedded-graphics = "*"
crossterm = "*"
