[package]
name = "psst-core"
version = "0.1.0"
edition = "2021"
publish = false

[dependencies]
druid = { version = "=0.7.0", features = ["im"] }
quick-protobuf = "=0.8.1"
serde = { version = "=1.0.229", features = ["derive", "rc"] }
