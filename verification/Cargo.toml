[package]
name = "nu_plugin_explore"
version = "0.1.0"
edition = "2021"
publish = false

[dependencies]
url = "2.5"
ratatui = "0.26"
crossterm = "0.27"
console = "0.15"
anyhow = "1"
