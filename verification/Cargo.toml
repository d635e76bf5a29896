[package]
name = "pypack"
version = "0.1.0"
edition = "2021"
publish = false

[dependencies]
sha2 = "0.10"
hex = "0.4"
serde_json = "1"
clap = { version = "4", features = ["derive"] }
dirs = "5"
flate2 = "1"
reqwest = { version = "0.12", features = ["blocking", "json"] }
tar = "0.4"
walkdir = "2"
which = "6"
zip = { version = "2", default-features = false, features = ["deflate"] }

[dev-dependencies]
tempfile = "3"
