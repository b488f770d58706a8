[package]
name = "reliost"
version = "0.1.0"
edition = "2021"
publish = false

[dependencies]
tokio = { version = "=1.53.2", features = ["full"] }
flate2 = "=1.1.10"
parse-size = "=1.1.0"
actix-web = "4"
actix-cors = "*"
bytes = "1"
config = "*"
serde = { version = "1", features = ["derive"] }
serde_json = "1"
tokio-stream = "0.1"
tracing = "0.1"
tracing-actix-web = "*"
wholesym = { version = "=0.8.1", features = ["api"] }
samply-quota-manager = "=0.1.0"
humantime-serde = "*"
