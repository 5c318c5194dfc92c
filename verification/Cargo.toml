[package]
name = "local_code"
version = "0.1.0"
edition = "2021"
publish = false

[dependencies]
regex = "=1.13.1"
chrono = "=0.4.45"
serde = { version = "=1.0.229", features = ["derive"] }
serde_json = "=1.0.154"
toml = "=1.1.8"
clap = { version = "=4.6.7", features = ["derive"] }
anyhow = "=1.0.104"
thiserror = "=2.0.21"
keyring = "=4.2.0"
directories = "=6.0.0"
walkdir = "=2.5.0"
ignore = "=0.4.34"
tokio = { version = "=1.54.1", features = ["full"] }
futures = "=0.3.34"
tracing = "=0.1.44"
reqwest = { version = "=0.13.5", default-features = false, features = ["json"] }
daimon = { version = "=0.25.0", features = ["openrouter", "mcp"] }
glob = "*"
