[package]
name = "appz"
version = "0.1.0"
edition = "2021"
publish = false

[dependencies]
glob = "=0.3.4"
rustc-hash = "=2.1.3"
regex = "=1.13.1"
url = "=2.5.8"
urlencoding = "=2.1.3"
which = "=8.0.6"
serde = { version = "=1.0.229", features = ["derive"] }
serde_json = "=1.0.154"
scraper = "*"
lopdf = "*"
pdf-extract = "*"
