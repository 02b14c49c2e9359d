[package]
name = "dcli"
version = "0.1.0"
edition = "2021"
publish = false

[dependencies]
chrono = "0.4"
futures = "0.3"
serde = "1"
serde_derive = "1"
serde_json = "1"
sqlx = { version = "0.8", default-features = false, features = ["sqlite", "runtime-tokio"] }
structopt = "0.3"
tokio = { version = "1", features = ["macros", "rt-multi-thread"] }
