[package]
name = "ethereum_bridge"
version = "0.1.0"
edition = "2021"
publish = false

[dependencies]
alloy = { version = "0.2", default-features = false, features = ["std", "contract", "network", "providers", "provider-ws", "pubsub", "rpc-types", "signers", "signer-local", "sol-types"] }
alloy-eips = { version = "0.2", default-features = false, features = ["std"] }
alloy-network = { version = "0.2", default-features = false }
alloy-primitives = { version = "0.7", default-features = false, features = ["std"] }
alloy-provider = { version = "0.2", default-features = false, features = ["ws"] }
alloy-rlp = { version = "0.3", features = ["derive"] }
alloy-rpc-types = "0.2"
alloy-sol-types = { version = "0.7", default-features = false, features = ["std"] }
alloy-transport = "0.2"
alloy-transport-ws = "0.2"
anyhow = "1"
async-trait = "0.1"
ethabi = { version = "18", default-features = false, features = ["std"] }
futures = { version = "0.3", default-features = false, features = ["std"] }
keccak-hash = { version = "0.10", default-features = false, features = ["std"] }
serde = { version = "1", features = ["derive"] }
thiserror = "1"
tokio = { version = "1", features = ["rt", "sync"] }
tracing = "0.1"
