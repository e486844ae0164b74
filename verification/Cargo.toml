[package]
name = "ffizer"
version = "0.1.0"
edition = "2021"
publish = false

[dependencies]
git2 = "*"
git2_credentials = "*"
walkdir = "*"
slog = "*"
dialoguer = "*"
indicatif = "*"
serde = { version = "*", features = ["derive"] }
serde_yaml = "*"
