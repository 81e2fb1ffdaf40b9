[package]
name = "aws-tui"
version = "0.1.0"
edition = "2021"
publish = false

[dependencies]
serde_json = "=1.0.154"
dirs = "=5.0.1"
tokio = { version = "=1.54.1", features = ["process", "rt-multi-thread", "macros", "io-util", "sync", "time"] }
ratatui = "0.29"
crossterm = "0.28"
vt100 = "0.15"
portable-pty = "0.8"
