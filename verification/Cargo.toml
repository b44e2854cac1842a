[package]
name = "grove"
version = "0.1.0"
edition = "2021"
publish = false

[dependencies]
unicode-width = "=0.2.3"
anstream = "=1.0.0"
clap = { version = "=4.6.7", features = ["derive"] }
indicatif = "=0.18.6"
owo-colors = "=4.4.0"
serde = { version = "=1.0.229", features = ["derive"] }
serde_json = "=1.0.154"
toml = { version = "=1.1.8", features = ["preserve_order"] }
toml_edit = "=0.25.17"
tempfile = "=3.27.0"
