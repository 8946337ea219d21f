[package]
name = "latex_formula"
version = "0.1.0"
edition = "2021"
publish = false

[dependencies]
lazy_static = "1"
tempfile = "3"
tokio = { version = "1", default-features = false, features = ["process", "rt", "time"] }
