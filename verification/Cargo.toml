[package]
name = "tornado_cash_heuristics"
version = "0.1.0"
edition = "2021"
publish = false

[dependencies]
ethabi = "18"
serde = { version = "1", features = ["derive"] }
serde_json = "1"
clap = "3"
