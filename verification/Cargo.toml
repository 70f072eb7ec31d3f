[package]
name = "helm_list_charts"
version = "0.1.0"
edition = "2021"
publish = false

[dependencies]
anyhow = "1"
chrono = "0.4"
clap = { version = "4", features = ["derive"] }
reqwest = { version = "0.12", features = ["blocking"] }
semver = "1"
serde = { version = "1", features = ["derive"] }
serde_yaml = "0.9"
tabwriter = "1"
