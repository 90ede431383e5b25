[package]
name = "mu"
version = "0.1.0"
edition = "2021"
publish = false

[dependencies]
anyhow = "*"
chrono = "*"
clap = { version = "*", features = ["derive"] }
hostname = "*"
openssh = "*"
ratatui = "*"
serde = { version = "*", features = ["derive"] }
serde_json = "*"
sysinfo = "*"
tera = "*"
tokio = { version = "*", features = ["rt-multi-thread", "macros"] }
users = "*"
