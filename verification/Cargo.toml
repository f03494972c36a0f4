[package]
name = "cosmon"
version = "0.1.0"
edition = "2021"
publish = false

[dependencies]
url = "=2.5.8"
serde = { version = "*", features = ["derive"] }
serde_json = "*"
toml = "*"
cadence = "*"
hostname = "*"
tokio = { version = "*", features = ["full"] }
warp = { version = "=0.4.3", features = ["server"] }
reqwest = { version = "*", default-features = false }
tower = { version = "*", features = ["full"] }
futures = "*"
clap = { version = "*", features = ["derive"] }
