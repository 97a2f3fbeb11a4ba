[package]
name = "conjure_core"
version = "0.1.0"
edition = "2021"
publish = false

[dependencies]
conjure-object = "*"
http = "*"
serde = { version = "*", features = ["derive"] }
serde_json = "*"
uuid = { version = "*", features = ["v4"] }
