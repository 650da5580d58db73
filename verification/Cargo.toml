[package]
name = "nanika"
version = "0.1.0"
edition = "2021"
publish = false

[dependencies]
sha2 = "=0.10.9"
semver = "=1.0.28"
serde = { version = "=1.0.229", features = ["derive"] }
serde_json = "=1.0.154"
jsonc-parser = { version = "=0.34.0", features = ["cst", "serde"] }
uuid = { version = "=1.29.0", features = ["v4"] }
zip = "=9.2.2"
tracing = "=0.1.44"
global-hotkey = "*"
