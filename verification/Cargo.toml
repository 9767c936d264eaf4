[package]
name = "mev_broadcast"
version = "0.1.0"
edition = "2021"
publish = false

[dependencies]
alloy = { version = "0.3", default-features = false, features = ["std", "reqwest", "providers", "transport-http", "rpc-types-mev"] }
alloy-rpc-types = { version = "0.3", default-features = false, features = ["mev"] }
async-trait = "0.1"
reqwest = { version = "0.12", default-features = false }
