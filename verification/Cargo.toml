[package]
name = "tweet_mirror"
version = "0.1.0"
edition = "2021"
publish = false

[dependencies]
actix-files = "0.6"
actix-web = { version = "4", default-features = false, features = ["macros", "rustls"] }
anyhow = "1"
async-trait = "0.1"
chrono = "0.4"
clap = { version = "3", features = ["derive"] }
egg-mode = { version = "0.16", default-features = false, features = ["rustls"] }
futures = "0.3"
log = "0.4"
maplit = "1"
mime = "0.3"
open = "3"
reqwest = { version = "0.11", default-features = false, features = ["rustls-tls", "json"] }
rustls = "0.20"
serde = { version = "1", features = ["derive"] }
serde_json = "1"
tempfile = "3"
thiserror = "1"
tokio = { version = "1", features = ["rt-multi-thread", "macros", "fs", "io-util", "time"] }
tokio-stream = { version = "0.1", features = ["fs"] }
url = { version = "2", features = ["serde"] }
