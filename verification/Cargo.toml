[package]
name = "udp_xor_relay"
version = "0.1.0"
edition = "2021"
publish = false

[dependencies]
serde = { version = "*", features = ["derive"] }
serde_with = "*"
tokio = { version = "*", features = ["rt-multi-thread", "macros", "net", "time", "sync"] }
toml = "*"
