[package]
name = "tsgraph"
version = "0.1.0"
edition = "2021"
publish = false

[dependencies]
anyhow = "=1.0.104"
crossterm = "=0.25.0"
rsys = "=0.5.5"
tui = "=0.19.0"
