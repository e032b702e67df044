[package]
name = "sportstats"
version = "0.1.0"
edition = "2021"
publish = false

[dependencies]
colorize = "*"
dotenvy = "*"
futures = "*"
inquire = "*"
reqwest = { version = "*", default-features = false, features = ["json"] }
reqwest-middleware = "*"
reqwest-retry = "*"
serde = { version = "*", features = ["derive"] }
tokio = { version = "*", features = ["macros", "rt-multi-thread"] }
