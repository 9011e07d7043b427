[package]
name = "console_core"
version = "0.1.0"
edition = "2021"
publish = false

[dependencies]
console-api = "=0.9.0"
tonic = "*"
tokio = { version = "=1.53.2", features = ["rt", "net", "time", "sync", "macros"] }
futures = "=0.3.34"
hyper-util = "=0.1.21"
tower = { version = "=0.4.13", features = ["util"] }
h2 = "=0.4.19"
ratatui = "=0.29.0"
