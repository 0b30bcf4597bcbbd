[package]
name = "ccometixline"
version = "0.1.0"
edition = "2021"
publish = false

[dependencies]
unicode-width = "0.2"
clap = { version = "4", features = ["derive"] }
dirs = "5"
ratatui = "0.29"
ansi-to-tui = "7"
serde = { version = "1", features = ["derive"] }
serde_json = "1"
toml = "0.8"
