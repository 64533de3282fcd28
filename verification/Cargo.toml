[package]
name = "pandoc_docs"
version = "0.1.0"
edition = "2021"
publish = false

[dependencies]
serde_yaml = "*"
heck = "*"
base64 = "*"
glob = "*"
tempfile = "*"
pulldown-cmark = "*"
