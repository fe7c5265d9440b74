[package]
name = "cfb"
version = "0.1.0"
edition = "2021"
publish = false

[dependencies]
anyhow = "=1.0.104"
clap = { version = "=3.2.25", features = ["derive"] }
colored = "=2.2.0"
dynfmt = { version = "=0.1.5", default-features = false, features = ["curly"] }
serde = { version = "=1.0.229", features = ["derive"] }
shell-quote = "=0.3.2"
toml = "=0.5.11"
