[package]
name = "waspedge"
version = "0.1.0"
edition = "2021"
publish = false

[dependencies]
dashmap = "5"
serde_json = "1"
serde = { version = "1", features = ["derive"] }
serde_yaml = "0.9"
anyhow = "1"
tokio = { version = "1", features = ["full"] }
hyper = { version = "0.14", features = ["full"] }
futures = "0.3"
futures-util = "0.3"
tokio-tungstenite = "0.21"
notify = "6"
quinn = { version = "0.11", default-features = false, features = ["runtime-tokio", "rustls-ring"] }
rustls = { version = "0.23", default-features = false, features = ["ring", "std"] }
rustls-pemfile = "1"
wasmtime = { version = "13", default-features = false, features = ["cranelift"] }
wasmtime-wasi = { version = "13", default-features = false, features = ["sync"] }
