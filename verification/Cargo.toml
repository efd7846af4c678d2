[package]
name = "lazytodo"
version = "0.1.0"
edition = "2021"

[dependencies]
rusqlite = { version = "*", features = ["bundled"] }
dirs = "*"
clap = { version = "*", features = ["derive"] }
