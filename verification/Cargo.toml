[package]
name = "gh_chk"
version = "0.1.0"
edition = "2021"
publish = false

[dependencies]
colored = "*"
serde = { version = "*", features = ["derive"] }
serde_json = "*"
serde_yaml = "*"
toml = "*"
clap = { version = "*", features = ["derive"] }
surf = { version = "*", default-features = false, features = ["h1-client-rustls"] }
async-std = { version = "*", features = ["attributes"] }
ratatui = "*"
open = "*"
read_input = "*"
time = { version = "*", features = ["serde", "parsing", "formatting", "serde-well-known"] }
