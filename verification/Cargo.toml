[package]
name = "analog"
version = "0.1.0"
edition = "2021"
publish = false

[dependencies]
aws-config = "1"
aws-sdk-cloudwatchlogs = "1"
chrono = "0.4"
clap = { version = "4", features = ["derive"] }
fern = "0.6"
humantime = "2"
log = "0.4"
parse_duration = "2"
sqlx = { version = "0.6", default-features = false, features = ["sqlite", "runtime-tokio-rustls"] }
tokio = { version = "1", features = ["macros", "rt-multi-thread", "sync"] }
