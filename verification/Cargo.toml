[package]
name = "shorthand_redirect"
version = "0.1.0"
edition = "2021"
publish = false

[dependencies]
actix-web = { version = "*", default-features = false }
anyhow = "*"
serde = { version = "*", features = ["derive"] }
serde_json = "*"
