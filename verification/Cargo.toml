[package]
name = "near_old_stations"
version = "0.1.0"
edition = "2021"
publish = false

[dependencies]
chrono = "0.4"
regex = "1"
clap = "2"
toml = "0.5"
serde = { version = "1", features = ["derive"] }
serde_json = "1"
flate2 = "1"
reqwest = { version = "0.9", default-features = false, features = ["rustls-tls"] }
indicatif = "0.15"
tiny_fail = "*"
