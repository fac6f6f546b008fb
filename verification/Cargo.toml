[package]
name = "perf_gauge"
version = "0.1.0"
edition = "2021"
publish = false

[dependencies]
histogram = "0.6"
rand = "0.8"
bytesize = "1"
log = "0.4"
tokio = { version = "1", features = ["rt-multi-thread", "time", "sync"] }
async-trait = "0.1"
serde = { version = "1", features = ["derive"] }
serde_json = "1"
