[package]
name = "clean_url"
version = "0.1.0"
edition = "2021"
publish = false

[dependencies]
url = "=2.5.8"
reqwest = "=0.12.28"

[dev-dependencies]
regex = "1"
