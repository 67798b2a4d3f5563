[package]
name = "mahgit"
version = "0.1.0"
edition = "2021"
publish = false

[dependencies]
similar = "2"
regex = "1"
git2 = { version = "0.20", default-features = false }
crossterm = "0.28"
ratatui = "0.29"
dirs = "6"
toml = "0.8"
serde = { version = "1", features = ["derive"] }
walkdir = "2"
syntect = { version = "5", default-features = false, features = ["default-fancy"] }
thiserror = "2"
