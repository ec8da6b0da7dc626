[package]
name = "cargoe"
version = "0.1.0"
edition = "2021"
publish = false

[dependencies]
toml_edit = "*"
serde_json = "*"
clap = { version = "*", features = ["derive"] }
colored = "*"
dialoguer = "*"
