[package]
name = "shortcut-catapult"
version = "0.1.0"
edition = "2021"
publish = false

[dependencies]
regex = "1"
strsim = "0.11"
axum = "0.8"
clap = { version = "4", features = ["derive"] }
color-eyre = "0.6"
eyre = "0.6"
libsystemd = "0.7"
once_cell = "1"
serde = { version = "1", features = ["derive"] }
serde_yaml = "0.9"
tokio = { version = "1", features = ["rt-multi-thread", "net", "fs"] }
tracing = "0.1"
tracing-log = "0.2"
tracing-subscriber = { version = "0.3", features = ["env-filter"] }
xdg = "3"
