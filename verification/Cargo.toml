[package]
name = "germal-app"
version = "0.1.0"
edition = "2021"
publish = false

[dependencies]
sys-locale = "=0.3.2"

[dev-dependencies]
serde_json = "1"
