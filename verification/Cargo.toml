[package]
name = "evtx"
version = "0.1.0"
edition = "2021"
publish = false

[dependencies]
quick-xml = "0.23"
chrono = "0.4"
