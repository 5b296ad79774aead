[package]
name = "minect"
version = "0.2.0"
edition = "2021"
publish = false

[dependencies]
encoding_rs = "0.8"
fs3 = "0.5"
hematite-nbt = "0.5"
indexmap = { version = "2", features = ["serde"] }
log = "0.4"
notify = "6"
serde = { version = "1", features = ["derive"] }
serde_json = "1"
tokio = { version = "1", features = ["sync"] }
tokio-stream = "0.1"
walkdir = "2"
