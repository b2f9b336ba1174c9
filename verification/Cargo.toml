[package]
name = "upload_server"
version = "0.1.0"
edition = "2021"
publish = false

[dependencies]
bytes = "1"
futures = "0.3"
tokio = { version = "1", features = ["macros", "rt-multi-thread"] }
warp = "0.3"
