[package]
name = "cephdu"
version = "0.1.0"
edition = "2021"
publish = false

[dependencies]
chrono = "0.4"
clap = { version = "4", features = ["derive"] }
color-eyre = "0.6"
crossterm = "*"
lazy_static = "1"
libc = "0.2"
ratatui = "*"
