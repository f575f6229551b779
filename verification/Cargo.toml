[package]
name = "form4"
version = "0.1.0"
edition = "2021"
publish = false

[dependencies]
roxmltree = "*"
chrono = "*"
url = "*"
serde = { version = "*", features = ["derive"] }
serde_json = "*"
reqwest = { version = "*", default-features = false, features = ["json"] }
tokio = { version = "*", features = ["rt-multi-thread", "macros", "time", "sync", "fs"] }
sqlx = { version = "*", default-features = false, features = ["sqlite", "runtime-tokio"] }
