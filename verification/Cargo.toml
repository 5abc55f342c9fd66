[package]
name = "text2img"
version = "0.1.0"
edition = "2021"
publish = false

[dependencies]
ab_glyph = "=0.2.32"
anyhow = "=1.0.104"
clap = { version = "=4.6.7", features = ["derive"] }
headless_chrome = "=0.9.0"
image = { version = "=0.25.10", default-features = false, features = ["png"] }
imageproc = { version = "=0.27.0", default-features = false, features = ["text"] }
pulldown-cmark = { version = "=0.13.5", default-features = false, features = ["html"] }
serde_json = "=1.0.154"
syntect = { version = "=5.3.0", default-features = false, features = ["default-fancy"] }
