[package]
name = "illuminator"
version = "0.1.0"
edition = "2021"
publish = false

[dependencies]
slotmap = { version = "1", features = ["serde"] }
image = { version = "0.25", default-features = false, features = ["png", "jpeg", "bmp", "webp"] }
serde = { version = "1", features = ["derive"] }
serde_json = "1"
base64 = "0.22"
xmlwriter = "0.1"
usvg = "*"
glam = { version = "0.29", features = ["serde"] }
thiserror = "1"
anyhow = "1"
tracing = "0.1"
tracing-subscriber = { version = "0.3", features = ["env-filter"] }
