[package]
name = "rusty_ytdl"
version = "0.1.0"
edition = "2021"
publish = false

[dependencies]
boa_engine = "=0.17.3"
rand = "=0.8.8"
regex = "1"
reqwest = { version = "=0.11.27", default-features = false, features = ["blocking"] }
serde = { version = "=1.0.229", features = ["derive"] }
serde_json = "=1.0.154"
serde_qs = "=0.12.0"
url = "=2.5.8"
urlencoding = "=2.1.3"
