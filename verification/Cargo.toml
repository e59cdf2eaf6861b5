[package]
name = "repo_finder"
version = "0.1.0"
edition = "2021"
publish = false

[dependencies]
anyhow = "=1.0.104"
chrono = "=0.4.45"
clap = { version = "=4.6.7", features = ["derive", "env"] }
clap_complete = "=4.6.11"
crossterm = "=0.29.0"
dirs = "=7.0.0"
git2 = "=0.21.0"
indicatif = "=0.18.6"
nucleo = "=0.5.0"
octocrab = "=0.47.1"
open = "=5.4.5"
ratatui = "=0.30.2"
rusqlite = { version = "=0.40.2", features = ["bundled"] }
serde = { version = "=1.0.229", features = ["derive"] }
serde_json = "=1.0.154"
tokio = { version = "=1.54.1", features = ["full"] }
