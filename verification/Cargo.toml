[package]
name = "bookweald_rs"
version = "0.1.0"
edition = "2021"
publish = false

[dependencies]
ahash = "=0.8.12"
anyhow = "=1.0.104"
clap = { version = "=4.6.7", features = ["derive"] }
crossbeam-channel = "=0.5.17"
dirs = "=6.0.0"
futures-util = "=0.3.34"
hex = "=0.4.3"
json5 = "=1.3.7"
libxml = "=0.3.23"
md5 = "=0.8.1"
quick-xml = { version = "=0.38.4", features = ["encoding"] }
rayon = "=1.12.0"
serde = { version = "=1.0.229", features = ["derive"] }
serde_json = "=1.0.154"
sqlx = { version = "=0.8.6", default-features = false, features = ["postgres", "runtime-tokio"] }
tokio = { version = "=1.54.1", features = ["rt-multi-thread"] }
tracing = "=0.1.44"
tracing-config = "=0.2.2"
zip = { version = "=9.2.2", default-features = false, features = ["deflate"] }
