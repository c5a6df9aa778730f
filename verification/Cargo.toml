[package]
name = "cheese_trackers_server"
version = "0.1.0"
edition = "2021"
publish = false

[dependencies]
scraper = "*"
url = "*"
uuid = { version = "*", features = ["v4"] }
tokio = { version = "*", features = ["macros", "rt-multi-thread", "sync"] }
reqwest = { version = "*", default-features = false }
moka = { version = "*", features = ["future"] }
serde = { version = "*", features = ["derive"] }
serde_json = "*"
