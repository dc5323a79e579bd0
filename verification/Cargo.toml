[package]
name = "asitop"
version = "0.1.0"
edition = "2021"
publish = false

[dependencies]
anyhow = "1"
clap = { version = "4", features = ["derive"] }
core-foundation-sys = "0.8"
crossterm = "0.28"
libc = "0.2"
plist = "1"
ratatui = "0.29"
serde = { version = "1", features = ["derive"] }
