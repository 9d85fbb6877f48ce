[package]
name = "clippy_history"
version = "0.1.0"
edition = "2021"

[dependencies]
rusqlite = { version = "*", features = ["bundled"] }
chrono = "*"
arboard = "*"
clap = { version = "*", features = ["derive"] }
colored = "*"
dirs = "*"
