[package]
name = "activestorage_ocr"
version = "0.1.0"
edition = "2021"
publish = false

[dependencies]
anyhow = "1"
axum = { version = "=0.7.9", features = ["multipart"] }
clap = { version = "4", features = ["derive", "env"] }
dirs = "=7.0.0"
image = { version = "=0.25.10", default-features = false, features = ["png", "jpeg", "gif", "bmp", "webp", "tiff"] }
imageproc = { version = "=0.25.1", default-features = false }
lopdf = "=0.46.0"
ocrs = "=0.13.1"
pdf-extract = "=0.12.1"
rten = "=0.26.0"
serde = { version = "1", features = ["derive"] }
thiserror = "2"
tokio = { version = "1", features = ["rt-multi-thread", "macros", "net"] }
tower-http = { version = "0.6", features = ["trace"] }
tracing = "0.1"
tracing-subscriber = { version = "0.3", features = ["env-filter"] }
ureq = "=3.5.0"
