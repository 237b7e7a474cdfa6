[package]
name = "git_rewrite"
version = "0.1.0"
edition = "2021"
publish = false

[dependencies]
anyhow = "1"
chrono = { version = "0.4", features = ["serde"] }
git2 = { version = "*", default-features = false }
serde = { version = "1", features = ["derive"] }
serde_json = "1"
walkdir = "2"
