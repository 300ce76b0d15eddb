[package]
name = "synapse_core"
version = "0.1.0"
edition = "2021"
publish = false

[dependencies]
tokio = { version = "1", features = ["sync", "fs", "io-util", "rt"] }
iceoryx2 = "*"
