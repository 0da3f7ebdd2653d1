[package]
name = "ydclient"
version = "0.1.0"
edition = "2021"
publish = false

[dependencies]
md-5 = "*"
percent-encoding = "*"
rusqlite = { version = "*", features = ["bundled"] }
notify = "*"
walkdir = "*"
reqwest = { version = "*", default-features = false, features = ["blocking"] }
serde = { version = "*", features = ["derive"] }
serde_json = "*"
toml = "*"
clap = "*"
config = "*"
text_io = "*"
colored = "*"
