[package]
name = "nesquic"
version = "0.1.0"
edition = "2021"
publish = false

[dependencies]
anyhow = "1"
glob = "0.3"
qlog = "0.15"
socket2 = "0.6"
tokio = { version = "1", features = ["macros", "rt", "net", "time"] }
tracing = "0.1"
