[package]
name = "rssbox"
version = "0.1.0"
edition = "2021"
publish = false

[dependencies]
rss = { version = "2", default-features = false }
uuid = { version = "1", features = ["v4"] }
md5 = "0.7"
serde = { version = "1", features = ["derive"] }
serde_json = "1"
rusqlite = { version = "*", features = ["bundled"] }
reqwest = { version = "0.12", default-features = false, features = ["rustls-tls", "socks"] }
tokio = { version = "1", features = ["rt-multi-thread", "macros", "time"] }
chrono = "0.4"
webbrowser = "*"
cmd_lib = "1"
