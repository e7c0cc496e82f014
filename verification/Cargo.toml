[package]
name = "ai_rules"
version = "0.1.0"
edition = "2021"
publish = false

[dependencies]
anyhow = "*"
clap = { version = "*", features = ["derive"] }
cliclack = "*"
serde = { version = "*", features = ["derive"] }
serde_json = "*"
serde_yaml = "*"
which = "*"
