[package]
name = "perlcritic_sarif"
version = "0.1.0"
edition = "2021"
publish = false

[dependencies]
clap = { version = "*", features = ["derive"] }
eyre = "*"
git2 = "*"
serde = { version = "*", features = ["derive"] }
serde_json = "*"
serde-sarif = "*"
