[package]
name = "insighter"
version = "0.1.0"
edition = "2021"
publish = false

[dependencies]
csv = "1"
pdf-extract = "*"
serde = { version = "1", features = ["derive"] }
serde_json = "1"
thiserror = "*"
log = "0.4"
pulldown-cmark = "*"
tempfile = "3"
