[package]
name = "typst_query"
version = "0.1.0"
edition = "2021"
publish = false

[dependencies]
comemo = "0.4"
serde_json = { version = "1", features = ["preserve_order"] }
serde_yaml = "0.9"
tracing = "0.1"
typst = "=0.11.1"
