[package]
name = "checkbox_board"
version = "0.1.0"
edition = "2021"
publish = false

[dependencies]
axum = { version = "*", features = ["ws"] }
dotenvy = "*"
futures = "*"
redis = { version = "*", features = ["tokio-comp"] }
tokio = { version = "*", features = ["macros", "rt-multi-thread", "sync", "net"] }
tower-http = { version = "*", features = ["compression-gzip", "compression-deflate", "cors"] }
