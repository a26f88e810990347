[package]
name = "import_ynab"
version = "0.1.0"
edition = "2021"
publish = false

[dependencies]
anyhow = "1"
chrono = "0.4"
csv = "=1.4.0"
failure = "0.1"
oauth2 = { version = "=5.0.0", features = ["reqwest-blocking"] }
pretty_env_logger = "*"
reqwest = { version = "=0.12.28", features = ["blocking", "json"] }
restson = "=1.5.0"
serde = { version = "1", features = ["derive"] }
serde_json = "1"
structopt = "0.3"
zip = "=8.6.0"
