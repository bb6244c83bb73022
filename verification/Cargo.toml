[package]
name = "qpage"
version = "0.1.0"
edition = "2021"
publish = false

[dependencies]
scraper = "*"
flate2 = "*"
tar = "*"
serde = { version = "*", features = ["derive"] }
toml = "*"
clap = "*"
dirs = "*"
reqwest = { version = "*", default-features = false, features = ["blocking"] }
