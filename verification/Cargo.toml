[package]
name = "iptv_player"
version = "0.1.0"
edition = "2021"
publish = false

[dependencies]
zip = { version = "*", default-features = false, features = ["deflate"] }
urlencoding = "*"
tokio = { version = "*", features = ["rt-multi-thread", "macros", "process", "time", "net", "sync", "io-util"] }
axum = "*"
tower-http = { version = "*", features = ["fs", "cors"] }
reqwest = { version = "*", default-features = false, features = ["rustls-tls", "json"] }
serde = { version = "*", features = ["derive"] }
serde_json = "*"
