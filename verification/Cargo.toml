[package]
name = "quadro"
version = "0.1.0"
edition = "2021"
publish = false

[dependencies]
regex = "=1.13.1"
bitcode = "=0.6.9"
serde = { version = "=1.0.229", features = ["derive"] }
toml = "=0.5.11"
log = "=0.4.35"
chrono = "=0.4.45"
glob = "=0.3.4"
anyhow = "=1.0.104"
