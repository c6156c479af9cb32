[package]
name = "briefing"
version = "0.1.0"
edition = "2021"
publish = false

[dependencies]
ansi_term = "0.12"
chrono = "0.4"
clap = "2"
dirs = "*"
regex = "1"
strfmt = "*"
