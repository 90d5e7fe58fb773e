[package]
name = "orderbook_feed"
version = "0.1.0"
edition = "2021"
publish = false

[dependencies]
actix = "*"
actix-codec = "*"
actix-http = "*"
actix-web = "*"
actix-web-actors = "*"
anyhow = "*"
awc = { version = "*", features = ["rustls"] }
bigdecimal = "*"
chrono = "*"
clap = { version = "*", features = ["derive"] }
fern = "*"
formatx = "*"
futures-util = "*"
log = "*"
once_cell = "*"
reqwest = { version = "*", default-features = false, features = ["json", "rustls-tls"] }
serde = { version = "*", features = ["derive"] }
serde_json = "*"
tokio = { version = "*", features = ["full"] }
tokio-stream = { version = "*", features = ["sync"] }
