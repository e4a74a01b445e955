[package]
name = "visual_vocab"
version = "0.1.0"
edition = "2021"
publish = false

[dependencies]
rand = "*"
url = "*"
reqwest = { version = "*", default-features = false, features = ["cookies", "gzip", "brotli", "deflate"] }
tokio = { version = "*", features = ["rt-multi-thread", "macros", "sync", "time"] }
futures = "*"
scraper = "*"
ego-tree = "*"
clap = { version = "*", features = ["derive"] }
log = "*"
docx-rs = "*"
image = { version = "*", default-features = false, features = ["png", "jpeg"] }
serde = { version = "*", features = ["derive"] }
serde_json = "*"
serde_yaml = "*"
tempfile = "*"
clipboard = "*"
rust-bert = { version = "*", default-features = false }
