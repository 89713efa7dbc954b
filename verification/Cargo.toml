[package]
name = "filectrl"
version = "0.1.0"
edition = "2021"
publish = false

[dependencies]
unicode-width = "*"
textwrap = "*"
argh = "*"
serde = { version = "*", features = ["derive"] }
toml = "*"
ratatui = "*"
anyhow = "*"
