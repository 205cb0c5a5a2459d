[package]
name = "instance_monitor"
version = "0.1.0"
edition = "2021"
publish = false

[dependencies]
axum = "*"
clap = { version = "*", features = ["derive"] }
env_logger = "*"
hostname = "*"
log = "*"
sysinfo = "*"
thiserror = "*"
tokio = { version = "*", features = ["rt-multi-thread", "macros", "time", "net"] }
