[package]
name = "flashthing"
version = "0.1.0"
edition = "2021"
publish = false

[dependencies]
serde_json = "1"
rusb = "0.9"
zip = { version = "2", default-features = false, features = ["deflate"] }
clap = { version = "4", features = ["derive"] }
tracing = "0.1"
tracing-subscriber = { version = "0.3", features = ["env-filter"] }
whoami = "1"
thiserror = "2"
