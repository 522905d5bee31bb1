[package]
name = "uf"
version = "0.1.0"
edition = "2021"
publish = false

[dependencies]
crossterm = "0.28"
nucleo-matcher = "0.3"
plist = "1"
ratatui = "0.29"
serde_json = "1"
unicode-segmentation = "1"
unicode-width = "0.2"
webbrowser = "1"
