[package]
name = "cronox"
version = "0.1.0"
edition = "2021"
publish = false

[dependencies]
chrono = "0.4"
cron = "*"
tokio = { version = "1", features = ["macros", "process", "rt-multi-thread", "signal", "time"] }
