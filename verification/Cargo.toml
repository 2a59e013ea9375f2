[package]
name = "uni_headless"
version = "0.1.0"
edition = "2021"
publish = false

[dependencies]
base64 = "*"
chromiumoxide = "*"
chrono = { version = "*", default-features = false, features = ["clock"] }
color-eyre = { version = "*", default-features = false }
futures = "*"
libc = "*"
serde = { version = "*", features = ["derive"] }
serde_json = "*"
tokio = { version = "*", features = ["full"] }
tracing = "*"
