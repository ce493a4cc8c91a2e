[package]
name = "semio_record"
version = "0.1.0"
edition = "2021"
publish = false

[dependencies]
uuid = { version = "1", features = ["v4", "serde"] }
serde = { version = "1", features = ["derive"] }
serde_json = "1"
camino = "1"
bimap = "0.6"
pathdiff = { version = "0.2", features = ["camino"] }
schemars = "0.8"
anyhow = "1"
async-trait = "0.1"
futures = "0.3"
clap = { version = "4", features = ["derive"] }
tokio = { version = "1", features = ["fs", "io-util", "macros", "rt-multi-thread"] }
wasm-bindgen = "0.2"
arora-types = "*"
