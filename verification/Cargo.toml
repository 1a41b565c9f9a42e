[package]
name = "evm_pvp"
version = "0.1.0"
edition = "2021"
publish = false

[dependencies]
alloy-primitives = "*"
alloy-signer = "*"
k256 = "*"
getrandom = "0.2"
serde = { version = "*", features = ["derive"] }
serde_json = "*"
klave = "*"

[dev-dependencies]
alloy-consensus = "*"
