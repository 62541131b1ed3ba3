[package]
name = "archie"
version = "0.1.0"
edition = "2021"
publish = false

[dependencies]
ux = "*"
clap = { version = "*", features = ["derive"] }
crossterm = "*"
ratatui = "*"
tracing = "*"
tracing-subscriber = "*"
tui-logger = { version = "*", features = ["tracing-support"] }
tui-term = "*"
color-eyre = "*"
