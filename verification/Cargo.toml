[package]
name = "pict-rs"
version = "0.4.0"
edition = "2021"
publish = false

[dependencies]
anyhow = "1"
mime = "0.3"
num_cpus = "1"
serde = { version = "1", features = ["derive"] }
serde_json = "1"
sha2 = "0.10"
sled = "0.34"
storage-path-generator = "0.1"
thiserror = "1"
time = { version = "0.3", features = ["serde"] }
tokio = { version = "1", features = ["fs", "io-util", "macros", "process", "rt", "sync"] }
tracing = "0.1"
uuid = { version = "1", features = ["v4"] }
