[package]
name = "polarust"
version = "0.1.0"
edition = "2021"
publish = false

[dependencies]
anyhow = "1"
chrono = "0.4"
clap = { version = "4", features = ["derive"] }
image = { version = "0.25", default-features = false }
indicatif = "0.17"
minijinja = { version = "2", features = ["loader"] }
rayon = "1"
serde = { version = "1", features = ["derive"] }
serde_json = "1"
tracing = "0.1"
tracing-subscriber = { version = "0.3", features = ["env-filter"] }
turbojpeg = { version = "1", features = ["image"] }
ureq = "3"
