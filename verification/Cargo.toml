[package]
name = "feed_extract"
version = "0.1.0"
edition = "2021"

[dependencies]
sha1 = "*"
xml-rs = "*"
serde = { version = "*", features = ["derive"] }
serde_json = "*"
tokio = { version = "*", features = ["macros", "rt-multi-thread", "fs"] }
reqwest = { version = "*", default-features = false }
