[package]
name = "landscape"
version = "0.1.0"
edition = "2021"
publish = false

[dependencies]
uuid = { version = "1", features = ["v4", "serde"] }
sha2 = "0.10"
serde = { version = "1", features = ["derive"] }
serde_json = "1"
tokio = { version = "1", features = ["sync", "rt", "rt-multi-thread", "macros", "time", "fs"] }
tokio-stream = "0.1"
tracing = "0.1"
thiserror = "2"
once_cell = "1"
async-trait = "0.1"
bollard = "0.19"
