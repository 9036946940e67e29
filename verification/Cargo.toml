[package]
name = "svue"
version = "0.1.0"
edition = "2021"
publish = false

[dependencies]
chrono = "*"
xml-rs = "*"
reqwest = { version = "*", default-features = false, features = ["blocking"] }
