[package]
name = "crackathon"
version = "0.1.0"
edition = "2021"
publish = false

[dependencies]
anyhow = "*"
clap = { version = "*", features = ["derive"] }
reqwest = { version = "*", default-features = false, features = ["blocking", "json", "rustls-tls"] }
rustyline = "*"
serde = { version = "*", features = ["derive"] }
serde_json = "*"
