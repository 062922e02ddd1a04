[package]
name = "refac"
version = "0.1.0"
edition = "2021"
publish = false

[dependencies]
anyhow = "1"
clap = { version = "4", features = ["derive"] }
lazy_fn = "*"
regex = "1"
reqwest = { version = "0.11", features = ["blocking", "json"] }
rpassword = "7"
schemars = "0.8"
serde = { version = "1", features = ["derive"] }
serde_json = "1"
similar = "2"
toml = "0.8"
tracing = "0.1"
tracing-subscriber = "0.3"
xdg = "2"
