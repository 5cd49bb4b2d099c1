[package]
name = "svix_cli2"
version = "0.1.0"
edition = "2021"
publish = false

[dependencies]
anyhow = "1"
clap = { version = "4", features = ["derive"] }
getrandom = "0.2"
hmac = "0.12"
sha2 = "0.10"
url = "2"
