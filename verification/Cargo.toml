[package]
name = "chat_console"
version = "0.1.0"
edition = "2021"
publish = false

[dependencies]
crossterm = "*"
openai = "*"
ratatui = "*"
tokio = { version = "1", features = ["fs", "macros", "rt-multi-thread", "sync", "time"] }
