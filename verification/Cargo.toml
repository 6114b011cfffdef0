[package]
name = "dactor"
version = "0.2.0"
edition = "2021"
publish = false

[dependencies]
prost = "0.13"
uuid = { version = "1", features = ["v4"] }
tokio = { version = "1", features = ["rt", "time", "macros", "sync"] }
tokio-util = "0.7"
tracing = "0.1"
serde = { version = "1", features = ["derive"] }
serde_json = "1"
async-trait = "0.1"
futures = "0.3"
