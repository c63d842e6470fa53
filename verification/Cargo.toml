[package]
name = "ruvo"
version = "0.1.0"
edition = "2021"
publish = false

[dependencies]
percent-encoding = "=2.3.2"
serde_urlencoded = "0.7"
toml = "=0.8.23"
clap = { version = "=4.6.7", features = ["derive"] }
