[package]
name = "tokio_process_tools"
version = "0.1.0"
edition = "2021"
publish = false

[dependencies]
atomic-take = "*"
bytes = "1"
memchr = "2"
thiserror = "2"
tokio = { version = "1", features = ["io-util", "macros", "process", "rt", "sync", "time"] }
tracing = "0.1"
