[package]
name = "mtg_formatter"
version = "0.1.0"
edition = "2021"
publish = false

[dependencies]
clap = "2"
csv = "1"
serde = { version = "1", features = ["derive"] }
