[package]
name = "ccheck"
version = "0.1.0"
edition = "2021"
publish = false

[dependencies]
regex = "=1.13.1"
base64 = "=0.13.1"
time = "=0.3.55"
tokio = { version = "1", features = ["rt-multi-thread", "net", "time", "macros", "sync"] }
craftping = { version = "=0.8.0", features = ["async-tokio"] }
webhook = "*"
clap = { version = "4", features = ["derive"] }
anyhow = "1"
serde = { version = "1", features = ["derive"] }
serde_json = "1"
toml_edit = "*"
