[package]
name = "toml_input"
version = "0.1.0"
edition = "2021"
publish = false

[dependencies]
toml = "0.8"
serde = "1"
