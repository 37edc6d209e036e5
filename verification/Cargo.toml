[package]
name = "mountie"
version = "0.1.0"
edition = "2021"
publish = false

[dependencies]
anyhow = "1"
dirs = "*"
url = "2"
rand = "0.8"
scraper = "*"
image = { version = "0.25", default-features = false, features = ["png", "jpeg", "gif", "webp", "ico", "bmp"] }
reqwest = { version = "0.12", default-features = false, features = ["blocking", "rustls-tls"] }
gtk4 = { version = "0.9", features = ["v4_10"] }
libadwaita = { version = "0.7", features = ["v1_5"] }
