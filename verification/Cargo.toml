[package]
name = "ascii_webcam"
version = "0.1.0"
edition = "2021"
publish = false

[dependencies]
opencv = "*"
ratatui = "*"
crossterm = "*"
crossbeam-channel = "*"
color-eyre = "*"
thiserror = "*"
