[package]
name = "tinyfeeds"
version = "0.1.0"
edition = "2021"
publish = false

[dependencies]
feedparser-rs = "*"
chrono = "0.4"
reqwest = { version = "0.12", default-features = false, features = ["rustls-tls"] }
pulldown-cmark = "*"
readabilityrs = "*"
tokio = { version = "1", features = ["full"] }
clap = { version = "4", features = ["derive"] }
webbrowser = "1"
gtk4 = "0.9"
libadwaita = { version = "0.7", features = ["v1_5"] }
