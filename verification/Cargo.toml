[package]
name = "viewpoint"
version = "1.0.0"
edition = "2021"
publish = false

[dependencies]
async-trait = "0.1"
bytes = "1"
env_logger = { version = "0.11", default-features = false }
openh264 = { version = "0.9", default-features = false, features = ["source"] }
rand = "0.10"
reqwest = { version = "0.13", default-features = false, features = ["json"] }
rtc = "0.21"
serde = { version = "1", features = ["derive"] }
serde_json = "1"
serde_yaml = "0.9"
tokio = { version = "1", features = ["rt-multi-thread", "macros", "sync", "time"] }
wasapi = "0.26"
webrtc = "0.21"
xcap = { version = "0.9", default-features = false }
