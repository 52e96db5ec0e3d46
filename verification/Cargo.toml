[package]
name = "chitin_net"
version = "0.1.0"
edition = "2021"
publish = false

[dependencies]
serde = { version = "1", features = ["derive"] }
smol = "2"
yamux = "0.13"
futures-lite = "2"
log = "0.4"
