[package]
name = "l1_proxy"
version = "0.1.0"
edition = "2021"
publish = false

[dependencies]
alloy-consensus = { version = "=2.5.0", features = ["k256"] }
alloy-primitives = "=1.7.3"
alloy-rlp = "=0.3.17"
alloy-signer-local = "=2.5.0"
eyre = "=0.6.14"
http-body-util = "0.1"
hyper = { version = "=1.12.0", features = ["http1", "server"] }
hyper-util = { version = "=0.1.21", features = ["tokio"] }
reqwest = { version = "=0.12.28", default-features = false, features = ["json"] }
reth-primitives-traits = "=0.8.2"
serde_json = "=1.0.154"
tokio = { version = "=1.54.1", features = ["net", "rt", "time"] }
tracing = "0.1"

[dev-dependencies]
alloy-eips = "=2.5.0"
alloy-signer = "=2.5.0"
