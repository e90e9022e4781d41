[package]
name = "hr-cli"
version = "0.1.0"
edition = "2021"
publish = false

[dependencies]
regex = "1"
clap = { version = "4", features = ["derive"] }
serde = { version = "1", features = ["derive"] }
serde_json = "1"
home = "0.5"
polars = { version = "*", default-features = false, features = ["json", "csv"] }
