[package]
name = "alvr_core"
version = "0.1.0"
edition = "2021"
publish = false

[dependencies]
semver = "=1.0.28"
serde = { version = "=1.0.229", features = ["derive"] }
serde_json = "=1.0.154"
ureq = { version = "=3.5.1", features = ["json"] }
sysinfo = "=0.35.2"
parking_lot = "=0.12.5"
flume = "=0.11.1"
chrono = "=0.4.45"
anyhow = "=1.0.104"
jni = "*"
ndk-context = "0.1"
