[package]
name = "snake_term"
version = "0.1.0"
edition = "2021"
publish = false

[dependencies]
clap = { version = "4", features = ["derive"] }
crossterm = "0.27"
dirs = "5"
rand = "0.8"
serde = { version = "1", features = ["derive"] }
toml = "0.8"
