[package]
name = "securenotify_sdk"
version = "0.1.0"
edition = "2021"
publish = false

[dependencies]
async-trait = "*"
futures = "*"
rand = "*"
reqwest = { version = "*", default-features = false, features = ["json", "stream"] }
serde = { version = "*", features = ["derive"] }
serde_json = "*"
sha2 = "*"
tokio = { version = "*", default-features = false, features = ["rt", "sync", "time", "macros"] }
url = "*"
uuid = { version = "*", features = ["v4"] }
