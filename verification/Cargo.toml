[package]
name = "prometheus"
version = "0.1.0"
edition = "2021"
publish = false

[dependencies]
dirs = "5"
image = "0.24"
imageproc = "0.23"
linkify = "0.10"
rand = "0.8"
redis = { version = "0.23", features = ["tokio-comp"] }
reqwest = { version = "0.11", default-features = false, features = ["json"] }
rusttype = "0.9"
serde = { version = "1", features = ["derive"] }
serde_json = "1"
serenity = "0.11"
sha256 = "1"
tokio = { version = "1", features = ["rt-multi-thread", "macros", "fs"] }
tokio-postgres = "0.7"
toml = "0.8"
urlencoding = "2"
