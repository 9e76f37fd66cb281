[package]
name = "docx2tex"
version = "0.1.0"
edition = "2021"
publish = false

[dependencies]
quick-xml = "0.37"
zip = { version = "2", default-features = false, features = ["deflate"] }
image = { version = "0.25", default-features = false, features = ["png", "jpeg", "gif", "bmp", "tiff", "tga", "ico", "pnm", "webp"] }
resvg = "0.45"
clap = { version = "4", features = ["derive"] }
anyhow = "1"
thiserror = "2"
