[package]
name = "media-server"
version = "0.1.0"
edition = "2021"
publish = false

[dependencies]
anyhow = "1"
async-trait = "0.1"
axum = { version = "=0.7.9", features = ["ws"] }
base64 = "=0.22.1"
chrono = "0.4"
dashmap = "=6.2.1"
env_logger = "0.11"
envy = "0.4"
ffmpeg-next = "7"
futures = "0.3"
gstreamer = "0.23"
gstreamer-app = "0.23"
hex = "=0.4.3"
log = "0.4"
parking_lot = "0.12"
rand = "=0.8.8"
sdp = "=0.6.2"
serde = { version = "1", features = ["derive"] }
serde_json = "1"
sha2 = "=0.10.9"
thiserror = "1"
tokio = { version = "1", features = ["full"] }
tower-http = { version = "0.5", features = ["cors", "trace"] }
url = { version = "=2.5.8", features = ["serde"] }
utoipa = { version = "4", features = ["uuid", "url"] }
utoipa-swagger-ui = { version = "6", features = ["axum"] }
uuid = { version = "=1.29.0", features = ["v4", "serde"] }
webrtc = "0.11"
