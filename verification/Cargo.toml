[package]
name = "flatpak2spec"
version = "0.4.0"
edition = "2021"
publish = false

[dependencies]
regex = "1"
roxmltree = "*"
chrono = "0.4"
serde = { version = "1", features = ["derive"] }
serde_json = "1"
serde_norway = "*"
clap = { version = "4", features = ["derive"] }
colored = "*"
anyhow = "1"
