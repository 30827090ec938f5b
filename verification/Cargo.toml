[package]
name = "es_resolve"
version = "0.1.0"
edition = "2021"
publish = false

[dependencies]
indexmap = "2"
json_comments = "0.2"
path-clean = "1"
serde_json = { version = "1", features = ["preserve_order"] }
