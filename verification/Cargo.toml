[package]
name = "oas_gen"
version = "0.1.0"
edition = "2021"
publish = false

[dependencies]
heck = "0.3"
http = "0.2"
okapi = "0.7"
schemars = "0.8"
serde = { version = "1", features = ["derive"] }
serde_json = "1"
serde_skip = "*"
