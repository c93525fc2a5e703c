[package]
name = "diffren"
version = "0.1.0"
edition = "2021"
publish = false

[dependencies]
clap = { version = "=3.2.25", features = ["derive"] }
colored = "=2.2.0"
dialoguer = "=0.10.4"
glob = "=0.3.4"
preferences = "2.0"
serde = { version = "=1.0.229", features = ["derive"] }
tempfile = "=3.27.0"
