[package]
name = "dprint_plugin_sql"
version = "0.1.0"
edition = "2021"
publish = false

[dependencies]
dprint-core = { version = "=0.62.1", default-features = false }
indexmap = "=1.9.3"
serde = { version = "=1.0.229", features = ["derive"] }
serde_json = "=1.0.154"
