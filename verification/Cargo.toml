[package]
name = "registry"
version = "0.1.0"
edition = "2021"
publish = false

[dependencies]
typomania = "=0.2.0"
anyhow = "=1.0.104"
async-trait = "=0.1.92"
diesel = { version = "=2.3.14", default-features = false, features = ["postgres"] }
http = "=0.2.12"
serde = { version = "=1.0.229", features = ["derive"] }
serde_json = "=1.0.154"
