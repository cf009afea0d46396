[package]
name = "watchr"
version = "1.0.0"
edition = "2021"
publish = false

[dependencies]
chrono = "0.4"
clap = { version = "4", features = ["derive"] }
colored = "2"
dirs = "5"
glob = "0.3"
notify = "6"
serde = { version = "1", features = ["derive"] }
toml = "0.8"
