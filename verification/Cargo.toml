[package]
name = "task_sched"
version = "0.1.0"
edition = "2021"
publish = false

[dependencies]
thiserror = "1"
tokio = { version = "1", features = ["rt", "sync", "time"] }
tracing = "0.1"
