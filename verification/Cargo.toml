[package]
name = "jobman"
version = "0.1.0"
edition = "2021"
publish = false

[dependencies]
serde = { version = "1", features = ["derive"] }
toml = "*"
slint = { version = "1", default-features = false, features = ["std", "compat-1-2"] }
