[package]
name = "citygml_tin"
version = "0.1.0"
edition = "2021"
publish = false

[dependencies]
indexmap = "2"
quick-xml = "0.31"
rust_decimal = "1"
serde = { version = "1", features = ["derive"] }
serde_json = { version = "1", features = ["preserve_order", "arbitrary_precision"] }
log = "0.4"
pretty_env_logger = "0.5"
