[package]
name = "desktop_entry"
version = "0.1.0"
edition = "2021"
publish = false

[dependencies]
uncased = "0.9"
clap = { version = "4", features = ["derive"] }
