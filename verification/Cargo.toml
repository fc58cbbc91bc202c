[package]
name = "nettool"
version = "0.1.0"
edition = "2021"
publish = false

[dependencies]
aes = "0.8"
aes-gcm = "0.10"
block-padding = "0.3"
cbc = { version = "0.1", features = ["alloc", "block-padding"] }
chrono = "0.4"
clap = { version = "4", features = ["derive"] }
colored = "2"
indicatif = "0.17"
rand = "0.8"
sha2 = "0.10"
tokio = { version = "1", features = ["rt-multi-thread", "macros", "net", "io-util", "io-std", "sync", "fs"] }
tracing = "0.1"
tracing-subscriber = "0.3"
x25519-dalek = "2"
