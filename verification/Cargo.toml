[package]
name = "imageproxy"
version = "0.1.0"
edition = "2021"
publish = false

[dependencies]
lru = "*"
image = "*"
percent-encoding = "*"
axum = "*"
tokio = { version = "*", features = ["macros", "rt-multi-thread", "net"] }
reqwest = { version = "*", default-features = false }
tower = "*"
tower-http = { version = "*", features = ["add-extension"] }
tracing = "*"
tracing-subscriber = "*"
anyhow = "*"
bytes = "*"
