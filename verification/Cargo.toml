[package]
name = "finder"
version = "0.1.0"
edition = "2021"
publish = false

[dependencies]
nucleo-matcher = "=0.3.1"
md5 = "=0.8.1"
tantivy = "=0.26.2"
regex = "*"
dirs = "*"
ignore = "*"
serde = { version = "*", features = ["derive"] }
serde_json = "*"
reqwest = { version = "*", default-features = false, features = ["json", "stream"] }
tokio = { version = "*", features = ["rt-multi-thread", "sync", "macros"] }
futures-util = "*"
crossterm = "*"
ratatui = "*"
pulldown-cmark = "*"

[dev-dependencies]
tempfile = "*"
