[package]
name = "bunyan"
version = "0.1.0"
edition = "2021"
publish = false

[dependencies]
atty = "0.2"
chrono = { version = "0.4", default-features = false, features = ["std"] }
clap = { version = "3", features = ["derive"] }
colored = "2"
serde_json = { version = "1", features = ["preserve_order"] }
