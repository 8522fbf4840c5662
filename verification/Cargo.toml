[package]
name = "rust_kvs"
version = "0.1.0"
edition = "2021"
publish = false

[dependencies]
dashmap = "*"
tokio = { version = "1", features = ["rt-multi-thread", "net", "time", "sync", "io-util", "macros"] }
tokio-util = { version = "*", features = ["codec"] }
bytes = "1"
futures = "0.3"
async-trait = "*"
rkyv = { version = "0.7", features = ["validation"] }
lru = "*"
