[package]
name = "ritcher"
version = "0.1.0"
edition = "2021"
publish = false

[dependencies]
url = "=2.5.8"
chrono = "=0.4.45"
axum = "=0.8.9"
tokio = { version = "=1.53.2", features = ["rt-multi-thread", "macros", "net", "time", "signal"] }
reqwest = { version = "=0.13.5", default-features = false }
serde = { version = "=1.0.229", features = ["derive"] }
serde_json = "=1.0.151"
tower-http = { version = "=0.6.11", features = ["cors"] }
m3u8-rs = "*"
dash-mpd = { version = "=0.18.4", default-features = false }
quick-xml = "*"
