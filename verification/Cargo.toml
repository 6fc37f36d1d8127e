[package]
name = "rustable"
version = "0.1.0"
edition = "2021"
publish = false

[dependencies]
anyhow = "1"
clap = { version = "4", features = ["derive"] }
csv = "1"
termcolor = "1"
unicode-width = "0.1"
