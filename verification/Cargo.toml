[package]
name = "task_shell"
version = "0.1.0"
edition = "2021"
publish = false

[dependencies]
dirs = "6"
futures = "0.3"
glob = "0.3"
miette = "7"
tokio = { version = "1", features = ["rt", "sync", "time"] }
tokio-util = "0.7"
