[package]
name = "liter2"
version = "0.1.0"
edition = "2021"
publish = false

[dependencies]
scraper = "*"
epub-builder = "*"
reqwest = { version = "*", default-features = false, features = ["blocking", "rustls-tls"] }
