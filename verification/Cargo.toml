[package]
name = "dbcore"
version = "0.1.0"
edition = "2021"
publish = false

[dependencies]
serde_json = "1"
mongodb = "2"
sqlx = { version = "0.8", features = ["sqlite", "runtime-tokio", "time", "json"] }
tokio = { version = "1", features = ["sync", "rt"] }
time = { version = "0.3", features = ["formatting"] }
