[package]
name = "splitway"
version = "0.1.0"
edition = "2021"
publish = false

[dependencies]
clap = { version = "4", features = ["derive"] }
core-foundation = "*"
env_logger = "*"
libc = "0.2"
log = "0.4"
notify = "*"
serde = { version = "1", features = ["derive"] }
serde_json = "1"
system-configuration = "*"
tokio = { version = "1", features = ["full"] }
zbus = { version = "5", default-features = false, features = ["tokio"] }
