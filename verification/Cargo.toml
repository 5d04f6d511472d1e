[package]
name = "secretswap_pair"
version = "0.1.0"
edition = "2021"
publish = false

[dependencies]
primitive-types = "=0.9.1"
schemars = "=0.7.6"
secret-cosmwasm-std = "=0.10.1"
secret-toolkit = "=0.2.0"
serde = { version = "=1.0.229", features = ["derive"] }
