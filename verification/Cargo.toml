[package]
name = "path_selector"
version = "0.1.0"
edition = "2021"
publish = false

[dependencies]
cursive = { version = "0.15", default-features = false }
