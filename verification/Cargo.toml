[package]
name = "parui"
version = "0.1.0"
edition = "2021"
publish = false

[dependencies]
compact_strings = "*"
regex = "*"
ratatui = "*"
ureq = "*"
