[package]
name = "core_p2p"
version = "0.1.0"
edition = "2021"
publish = false

[dependencies]
bytes = "0.4"
crossbeam-channel = "0.3"
env_logger = { version = "0.6", default-features = false }
futures = "0.3"
libp2p = { version = "0.42", default-features = false, features = ["mplex", "noise", "ping", "secp256k1", "tcp-tokio", "yamux"] }
log = "0.4"
serde = { version = "1", features = ["derive"] }
serde_json = "1"
tokio = { version = "1", features = ["rt", "time"] }
