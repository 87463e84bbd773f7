[package]
name = "reai_board_sdk"
version = "0.1.0"
edition = "2021"
publish = false

[dependencies]
smallvec = "=1.16.4"
uuid = "=1.29.0"
anyhow = "1"
thiserror = "1"
log = "0.4"
serde = { version = "1", features = ["derive"] }
tokio = { version = "1", features = ["rt", "rt-multi-thread", "macros", "time", "sync"] }
hidapi = { version = "2.6", features = ["macos-shared-device"] }
cpal = "0.15"
btleplug = "0.12"
futures-util = "0.3"

[dev-dependencies]
serde_json = "1"
