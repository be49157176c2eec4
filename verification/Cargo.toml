[package]
name = "chat_core"
version = "0.1.0"
edition = "2021"
publish = false

[dependencies]
tokio = { version = "*", features = ["rt-multi-thread", "net", "sync", "time", "signal", "macros", "io-util"] }
