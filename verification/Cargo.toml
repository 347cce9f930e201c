[package]
name = "jev-cli"
version = "0.1.0"
edition = "2021"
publish = false

[dependencies]
jev-sdk = "*"
dotenvy = "0.15"
serde = { version = "1", features = ["derive"] }
serde_json = { version = "1", features = ["preserve_order"] }
tokio = { version = "1", features = ["rt-multi-thread", "macros", "fs", "io-std", "io-util"] }
clap = { version = "4", features = ["derive"] }
thiserror = "2"
