[package]
name = "arconaut"
version = "0.1.0"
edition = "2021"
publish = false

[dependencies]
chrono = "0.4"
regex = "1"
pulldown-cmark = { version = "0.12", default-features = false }
base64 = "0.22"
serde = { version = "1", features = ["derive"] }
serde_json = "1"
toml = "0.8"
uuid = { version = "1", features = ["v4"] }
tokio = { version = "1", features = ["full"] }
async-trait = "0.1"
clap = { version = "4", features = ["derive"] }
crossterm = "0.28"
ratatui = "0.29"
vt100 = "0.15"
reqwest = { version = "0.12", default-features = false, features = ["json"] }
pdf-writer = "0.12"
