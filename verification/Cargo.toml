[package]
name = "forkdep"
version = "0.1.0"
edition = "2021"
rust-version = "1.95"
publish = false

[dependencies]
anyhow = "=1.0.104"
clap = { version = "=4.6.7", features = ["derive"] }
git2 = { version = "=0.21.0", default-features = false }
toml_edit = "=0.23.9"
