[package]
name = "humanize_text"
version = "0.13.0"
edition = "2021"
publish = false

[dependencies]
regex = "1"
serde_json = "1"
dotenvy = "0.15"
clap = { version = "4", features = ["derive"] }
reqwest = { version = "0.12", default-features = false, features = ["blocking", "json", "rustls-tls"] }
