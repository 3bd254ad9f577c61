[package]
name = "open_ai_compatible"
version = "0.1.0"
edition = "2021"
publish = false

[dependencies]
convert_case = "*"
futures = "*"
log = "*"
serde = { version = "*", features = ["derive"] }
serde_json = "*"
urlencoding = "*"
