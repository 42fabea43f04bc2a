[package]
name = "frogbot"
version = "0.1.0"
edition = "2021"
publish = false

[dependencies]
rand = "0.8"
anyhow = "1"
reqwest = { version = "0.12", default-features = false, features = ["rustls-tls"] }
poise = "0.6"
shuttle-runtime = "*"
shuttle-serenity = "*"
