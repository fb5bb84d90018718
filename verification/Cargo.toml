[package]
name = "chip_ate"
version = "0.1.0"
edition = "2021"
publish = false

[dependencies]
rand = "*"
crossterm = { version = "*", features = ["event-stream"] }
futures-util = "*"
ratatui = "*"
tokio = { version = "*", features = ["rt", "macros", "time", "sync"] }
