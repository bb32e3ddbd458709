[package]
name = "wpihal"
version = "0.1.0"
edition = "2021"
publish = false

[dependencies]
home = "*"
anyhow = "*"
zip = { version = "*", default-features = false }
reqwest = { version = "*", default-features = false, features = ["blocking"] }
