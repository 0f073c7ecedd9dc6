[package]
name = "ssl_engine"
version = "0.1.0"
edition = "2021"
publish = false

[dependencies]
tokio = { version = "1", features = ["rt-multi-thread", "macros", "net", "time", "sync", "io-std", "io-util"] }
socket2 = { version = "0.5", features = ["all"] }
serialport = { version = "4", default-features = false }
prost = "0.13"
chrono = "0.4"
csv = "1"
serde = { version = "1", features = ["derive"] }
serde_json = "1"
rust-ini = "0.21"
tracing = "0.1"
tracing-subscriber = "0.3"
mlua = { version = "0.10", features = ["lua54", "vendored", "send"] }
