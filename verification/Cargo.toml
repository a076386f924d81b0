[package]
name = "book_gateway"
version = "0.1.0"
edition = "2021"
publish = false

[dependencies]
translit = "*"
tempfile = "*"
zip = { version = "*", default-features = false, features = ["deflate"] }
axum = "*"
tokio = { version = "*", features = ["rt-multi-thread", "macros", "net", "io-util"] }
tokio-util = { version = "*", features = ["io", "compat"] }
reqwest = { version = "*", default-features = false, features = ["json", "stream"] }
futures = "*"
serde = { version = "*", features = ["derive"] }
serde_json = "*"
once_cell = "*"
base64 = "*"
bytes = "*"
