[package]
name = "codetimelens"
version = "0.1.0"
edition = "2021"
publish = false

[dependencies]
chrono = "0.4"
clap = { version = "4", features = ["derive"] }
crossterm = "*"
csv = "1"
ctrlc = "3"
git2 = { version = "*", default-features = false }
notify = "*"
ratatui = "*"
rusqlite = "*"
serde = { version = "1", features = ["derive"] }
serde_json = "1"
