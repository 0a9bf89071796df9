[package]
name = "gitpilot"
version = "0.1.0"
edition = "2021"
publish = false

[dependencies]
anyhow = "1"
chrono = "0.4"
clap = { version = "4", features = ["derive", "env"] }
clap_complete = "4"
clap_mangen = "0.2"
dialoguer = { version = "0.11", features = ["fuzzy-select"] }
git2 = "0.19"
owo-colors = "4"
regex = "1"
serde = { version = "1", features = ["derive"] }
serde_json = "1"
tabled = "0.16"
thiserror = "1"
ureq = { version = "2", features = ["json"] }
