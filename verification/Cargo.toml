[package]
name = "gitsurveil"
version = "0.1.0"
edition = "2021"
publish = false

[dependencies]
chrono = "=0.4.45"
serde = { version = "=1.0.229", features = ["derive"] }
serde_json = "=1.0.154"
toml = "=1.1.8"
tokio = { version = "=1.54.1", features = ["full"] }
tracing = "=0.1.44"
tracing-subscriber = { version = "=0.3.23", features = ["env-filter"] }
uuid = { version = "=1.29.0", features = ["v4"] }
directories = "=6.0.0"
thiserror = "=2.0.21"
rusqlite = { version = "=0.41.1", features = ["bundled"] }
git2 = "=0.21.0"
reqwest = { version = "=0.13.5", features = ["json"] }
keyring = "=4.2.0"
notify-rust = "=4.18.2"
