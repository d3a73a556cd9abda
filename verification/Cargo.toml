[package]
name = "message_board"
version = "0.1.0"
edition = "2021"

[dependencies]
crossterm = "0.28"
ratatui = "0.29"
toml = "0.8"

[dev-dependencies]
rand = "0.9"
