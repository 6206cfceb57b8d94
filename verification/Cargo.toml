[package]
name = "sensleak"
version = "0.1.0"
edition = "2021"
publish = false

[dependencies]
chrono = { version = "=0.4.45", default-features = false, features = ["std"] }
clap = { version = "=4.6.7", features = ["derive"] }
csv = "1"
git2 = { version = "=0.21.0", default-features = false }
regex = "=1.13.1"
serde = { version = "=1.0.229", features = ["derive"] }
serde_json = "1"
toml = "*"
