[package]
name = "henk"
version = "0.1.0"
edition = "2021"
publish = false

[dependencies]
anyhow = "1"
axoupdater = "0.9"
chrono = { version = "0.4", default-features = false, features = ["clock", "serde"] }
clap = { version = "4", features = ["derive"] }
crossterm = "0.28"
dirs = "6"
inquire = "0.7"
owo-colors = "4"
ratatui = "0.29"
regex = "1"
serde = { version = "1", features = ["derive"] }
serde_json = "1"
serde_yaml_ng = "0.10"
tokio = { version = "1", features = ["macros", "rt-multi-thread", "process"] }
toml = "0.8"
tracing-subscriber = { version = "0.3", features = ["env-filter"] }
