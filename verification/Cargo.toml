[package]
name = "harness"
version = "0.1.0"
edition = "2021"
publish = false

[dependencies]
criterion = { version = "0.3", default-features = false }
serde = { version = "1", features = ["derive"] }
serde_json = "1"
clap = { version = "3", features = ["derive"] }
geo = "0.20"
geos = { version = "8", features = ["geo"] }
geozero = "0.8"
