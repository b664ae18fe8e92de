[package]
name = "mpris_watch"
version = "0.1.0"
edition = "2021"
publish = false

[dependencies]
zbus = { version = "*", default-features = false, features = ["tokio"] }
tokio = { version = "*", features = ["macros", "rt-multi-thread"] }
futures-util = "*"
