[package]
name = "rust_tui"
version = "0.1.0"
edition = "2021"
publish = false

[dependencies]
chrono = "*"
ratatui = "*"
crossterm = "*"
tui-big-text = "*"
color-eyre = "*"
