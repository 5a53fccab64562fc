[package]
name = "forks_core"
version = "0.1.0"
edition = "2021"
publish = false

[dependencies]
git2 = { version = "*", default-features = false }
serde = { version = "*", features = ["derive"] }
serde_json = "*"
similar = "*"
base64 = "*"
rand = "0.8"
ureq = { version = "2", default-features = false }
notify = "6"

[dev-dependencies]
tempfile = "*"
