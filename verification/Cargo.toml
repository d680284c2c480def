[package]
name = "query_core"
version = "0.1.0"
edition = "2021"
publish = false

[dependencies]
base64 = "0.13"
cuid = "1"
structopt = "0.3"
quaint = { version = "*", default-features = false, features = ["pooled", "mysql"] }
