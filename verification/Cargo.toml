[package]
name = "vibevim"
version = "0.1.0"
edition = "2021"
publish = false

[dependencies]
ropey = { version = "*", default-features = false }
serde_json = "*"
dirs = "*"
crossterm = "*"
ratatui = "*"
ratatui-explorer = "*"
walkdir = "*"
nucleo = "*"
