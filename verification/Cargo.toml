[package]
name = "ticket_engine"
version = "0.1.0"
edition = "2021"
publish = false

[dependencies]
fuzzy-matcher = "*"
chrono = "*"
