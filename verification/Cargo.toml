[package]
name = "defense"
version = "0.1.0"
edition = "2021"
publish = false

[dependencies]
regex = "1"
owo-colors = "4"
anyhow = "1"
async-trait = "0.1"
chrono = "0.4"
clap = { version = "4", features = ["derive"] }
flate2 = "1"
notify = "7"
serde = { version = "1", features = ["derive"] }
serde_json = "1"
sysinfo = "0.33"
tokio = { version = "1", features = ["full"] }
toml = "0.8"
winreg = "0.52"
