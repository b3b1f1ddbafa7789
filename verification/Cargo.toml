[package]
name = "scheduler_rs"
version = "0.1.0"
edition = "2021"
publish = false

[dependencies]
anyhow = "1"
bollard = "*"
chrono-tz = "*"
dotenvy = "0.15"
futures-util = "0.3"
shlex = "1"
thiserror = "*"
tokio = { version = "1", features = ["macros", "rt-multi-thread", "process", "time", "signal", "sync"] }
tokio-cron-scheduler = "*"
tracing = "0.1"
tracing-subscriber = { version = "0.3", features = ["env-filter", "fmt"] }
uuid = "1"
