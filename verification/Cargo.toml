[package]
name = "techscan"
version = "0.1.0"
edition = "2021"
publish = false

[dependencies]
clap = { version = "*", features = ["derive"] }
config = "*"
ignore = "*"
tabled = "*"

[dev-dependencies]
serde_json = "*"
