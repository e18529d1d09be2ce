[package]
name = "familiar"
version = "0.1.0"
edition = "2021"
publish = false

[dependencies]
clap = "2"
colored = "2"
git2 = { version = "0.13", default-features = false }
serde = { version = "1", features = ["derive"] }
shellexpand = "2"
tico = "1"
toml = "0.5"
