[package]
name = "smbox"
version = "0.1.0"
edition = "2021"
publish = false

[dependencies]
regex = "*"
anyhow = "*"
crossterm = "*"
directories = "*"
mktemp = "*"
ratatui = "*"
