[package]
name = "github_releases"
version = "0.1.0"
edition = "2021"
publish = false

[dependencies]
anyhow = "*"
futures = "*"
log = "*"
serde = "*"
serde_json = "*"
url = "*"
