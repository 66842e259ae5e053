[package]
name = "evm_exporter"
version = "0.1.0"
edition = "2021"
publish = false

[dependencies]
hex = "0.4.3"
primitive-types = { version = "0.12.2", features = ["serde"] }
serde_json = "1"
serde = { version = "1", features = ["derive"] }
thiserror = "1"
uint = "0.9.5"
libsecp256k1 = "0.7"
ethereum = { version = "0.14.0", features = ["with-serde"] }
ethereum-types = "0.14.1"
redis = { version = "0.27", features = ["r2d2", "cluster"] }
r2d2 = "0.8"
env_logger = "0.10"
num_cpus = "1"
ruc = "4"
jsonrpc-core = "18"
jsonrpc-http-server = "18"
jsonrpc-ws-server = "18"
jsonrpc-pubsub = "18"
