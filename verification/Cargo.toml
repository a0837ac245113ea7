[package]
name = "solver"
version = "0.1.0"
edition = "2021"
publish = false

[dependencies]
rusqlite = { version = "0.37.0", features = ["bundled"] }
