[package]
name = "morty"
version = "0.1.0"
edition = "2021"
publish = false

[dependencies]
anyhow = "1"
chrono = "0.4"
colored = "*"
pulldown-cmark = { version = "*", default-features = false, features = ["html"] }
sv-parser = "*"
term = "*"
