[package]
name = "armv7m_emu"
version = "0.1.0"
edition = "2021"
publish = false

[dependencies]
object = "0.36"
clap = { version = "4", features = ["derive"] }
crossterm = "0.28"
ratatui = "0.29"
