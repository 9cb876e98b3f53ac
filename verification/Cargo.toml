[package]
name = "snowsql"
version = "0.1.0"
edition = "2021"
publish = false

[dependencies]
uuid = { version = "*", features = ["v4"] }
serde = { version = "*", features = ["derive"] }
serde_json = "*"
reqwest = { version = "*", default-features = false, features = ["json", "gzip"] }
base64 = "*"
rsa = { version = "*", features = ["sha2"] }
