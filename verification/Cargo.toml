[package]
name = "bevy_slinet"
version = "0.1.0"
edition = "2021"
publish = false

[dependencies]
async-trait = "0.1"
bevy = { version = "0.15", default-features = false }
bincode = "1.3"
dashmap = "6"
futures = "0.3"
log = "0.4"
serde = { version = "1", features = ["derive"] }
tokio = { version = "1", features = ["io-util", "macros", "net", "rt", "rt-multi-thread", "sync", "time"] }
wasm-bindgen-futures = "0.4"
