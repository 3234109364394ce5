[package]
name = "moonlight-web"
version = "0.1.0"
edition = "2021"
publish = false

[dependencies]
actix-codec = "=0.5.4"
actix-http = { version = "=3.20.0", features = ["ws"] }
actix-web = "=4.18.1"
actix-ws = "=0.4.0"
anyhow = "=1.0.104"
async-trait = "=0.1.92"
bincode = { version = "=2.0.1", features = ["serde"] }
bytes = { version = "=1.12.1", features = ["serde"] }
futures = "=0.3.34"
log = { version = "=0.4.35", features = ["serde"] }
openssl = "=0.10.82"
pem = { version = "=3.0.6", features = ["serde"] }
serde = { version = "=1.0.229", features = ["derive"] }
serde_json = "=1.0.154"
sha2 = "=0.10.9"
tokio = { version = "=1.54.1", features = ["full"] }
tracing = "=0.1.44"
tracing-subscriber = { version = "=0.3.23", features = ["env-filter"] }
webrtc = "=0.14.0"
wtransport = { version = "=0.7.2", features = ["quinn"] }
