[package]
name = "chromaport"
version = "0.1.0"
edition = "2021"
publish = false

[dependencies]
anyhow = "1"
clap = { version = "4", features = ["derive"] }
console = "*"
crossterm = "*"
dirs = "*"
inquire = "*"
plist = "1"
ratatui = "*"
rayon = "1"
semver = "1"
serde = { version = "1", features = ["derive"] }
serde_json = "1"
serde_yaml_ng = "*"
similar = "*"
tempfile = "3"
ureq = { version = "3", features = ["json"] }
