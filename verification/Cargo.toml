[package]
name = "heist_cli"
version = "0.1.0"
edition = "2021"
publish = false

[dependencies]
time = { version = "0.3", features = ["parsing", "macros"] }
clap = { version = "4", features = ["derive"] }
git2 = { version = "*", default-features = false }
serde = { version = "1", features = ["derive"] }
serde_json = "1"
nutype = { version = "*", features = ["serde"] }
